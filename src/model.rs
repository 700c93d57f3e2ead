//! The controller → WWPN → LUN hierarchy, its mathematical model and its
//! well-formedness rules.
use vstd::prelude::*;

verus! {

/// Activation state of a controller.
#[derive(Clone, Copy, Debug, PartialEq, Eq, Structural)]
pub enum ControllerState {
    Inactive,
    Active,
}

/// Activation state of the disk reachable at a (controller, WWPN, LUN) triple.
#[derive(Clone, Copy, Debug, PartialEq, Eq, Structural)]
pub enum DiskState {
    Inactive,
    Active,
    ActivationFailed,
}

/// A LUN behind a WWPN, with the state of the disk it addresses.
#[derive(Clone, Debug, PartialEq, Eq)]
pub struct Disk {
    pub lun: String,
    pub state: DiskState,
}

/// A WWPN of a controller and the LUNs reachable through it.
#[derive(Clone, Debug, PartialEq, Eq)]
pub struct Wwpn {
    pub id: String,
    pub disks: Vec<Disk>,
}

/// A zFCP controller; its WWPNs are known only while it is active.
#[derive(Clone, Debug, PartialEq, Eq)]
pub struct Controller {
    pub id: String,
    pub state: ControllerState,
    pub wwpns: Vec<Wwpn>,
}

pub struct DiskView {
    pub lun: Seq<char>,
    pub state: DiskState,
}

pub struct WwpnView {
    pub id: Seq<char>,
    pub disks: Seq<DiskView>,
}

pub struct ControllerView {
    pub id: Seq<char>,
    pub state: ControllerState,
    pub wwpns: Seq<WwpnView>,
}

impl View for Disk {
    type V = DiskView;

    open spec fn view(&self) -> DiskView {
        DiskView { lun: self.lun@, state: self.state }
    }
}

pub open spec fn disks_view(ds: Seq<Disk>) -> Seq<DiskView> {
    ds.map_values(|d: Disk| d@)
}

impl View for Wwpn {
    type V = WwpnView;

    open spec fn view(&self) -> WwpnView {
        WwpnView { id: self.id@, disks: disks_view(self.disks@) }
    }
}

pub open spec fn wwpns_view(ws: Seq<Wwpn>) -> Seq<WwpnView> {
    ws.map_values(|w: Wwpn| w@)
}

impl View for Controller {
    type V = ControllerView;

    open spec fn view(&self) -> ControllerView {
        ControllerView { id: self.id@, state: self.state, wwpns: wwpns_view(self.wwpns@) }
    }
}

pub open spec fn controllers_view(cs: Seq<Controller>) -> Seq<ControllerView> {
    cs.map_values(|c: Controller| c@)
}

/// No LUN occurs twice behind one WWPN.
pub open spec fn luns_unique(ds: Seq<DiskView>) -> bool {
    forall|a: int, b: int| 0 <= a < b < ds.len() ==> #[trigger] ds[a].lun != #[trigger] ds[b].lun
}

/// WWPN identifiers are unique within a controller, and so are the LUNs behind each.
pub open spec fn wwpns_wf(ws: Seq<WwpnView>) -> bool {
    &&& forall|a: int, b: int| 0 <= a < b < ws.len() ==> #[trigger] ws[a].id != #[trigger] ws[b].id
    &&& forall|a: int| 0 <= a < ws.len() ==> luns_unique(#[trigger] ws[a].disks)
}

/// An inactive controller exposes no WWPN (so no disk either).
pub open spec fn controller_wf(c: ControllerView) -> bool {
    &&& c.state == ControllerState::Inactive ==> c.wwpns.len() == 0
    &&& wwpns_wf(c.wwpns)
}

/// Controller identifiers are unique and every controller is well formed.
pub open spec fn hierarchy_wf(cs: Seq<ControllerView>) -> bool {
    &&& forall|a: int, b: int| 0 <= a < b < cs.len() ==> #[trigger] cs[a].id != #[trigger] cs[b].id
    &&& forall|a: int| 0 <= a < cs.len() ==> controller_wf(#[trigger] cs[a])
}

/// Position of the controller named `id`, or -1.
pub open spec fn controller_index(cs: Seq<ControllerView>, id: Seq<char>) -> int {
    if exists|i: int| 0 <= i < cs.len() && (#[trigger] cs[i]).id == id {
        choose|i: int| 0 <= i < cs.len() && (#[trigger] cs[i]).id == id
    } else {
        -1
    }
}

/// Position of the WWPN named `id`, or -1.
pub open spec fn wwpn_index(ws: Seq<WwpnView>, id: Seq<char>) -> int {
    if exists|i: int| 0 <= i < ws.len() && (#[trigger] ws[i]).id == id {
        choose|i: int| 0 <= i < ws.len() && (#[trigger] ws[i]).id == id
    } else {
        -1
    }
}

/// Position of the LUN `lun`, or -1.
pub open spec fn lun_index(ds: Seq<DiskView>, lun: Seq<char>) -> int {
    if exists|i: int| 0 <= i < ds.len() && (#[trigger] ds[i]).lun == lun {
        choose|i: int| 0 <= i < ds.len() && (#[trigger] ds[i]).lun == lun
    } else {
        -1
    }
}

pub open spec fn string_views(v: Seq<String>) -> Seq<Seq<char>> {
    v.map_values(|s: String| s@)
}

pub open spec fn wwpn_ids(ws: Seq<WwpnView>) -> Seq<Seq<char>> {
    ws.map_values(|w: WwpnView| w.id)
}

pub open spec fn disk_luns(ds: Seq<DiskView>) -> Seq<Seq<char>> {
    ds.map_values(|d: DiskView| d.lun)
}

/// Whether no LUN occurs twice in `ds`.
pub fn check_luns(ds: &Vec<Disk>) -> (r: bool)
    ensures
        r == luns_unique(disks_view(ds@)),
{
    let ghost dv = disks_view(ds@);
    let mut a: usize = 0;
    while a < ds.len()
        invariant
            dv == disks_view(ds@),
            a <= ds.len(),
            forall|x: int, y: int| 0 <= x < a && x < y < ds.len() ==> #[trigger] dv[x].lun != #[trigger] dv[y].lun,
        decreases ds.len() - a,
    {
        let mut b: usize = a + 1;
        while b < ds.len()
            invariant
                dv == disks_view(ds@),
                a < ds.len(),
                a + 1 <= b <= ds.len(),
                forall|x: int, y: int| 0 <= x < a && x < y < ds.len() ==> #[trigger] dv[x].lun != #[trigger] dv[y].lun,
                forall|y: int| a < y < b ==> dv[a as int].lun != #[trigger] dv[y].lun,
            decreases ds.len() - b,
        {
            if ds[a].lun.eq(&ds[b].lun) {
                assert(dv[a as int].lun == dv[b as int].lun);
                return false;
            }
            b += 1;
        }
        a += 1;
    }
    true
}

/// Whether `ws` satisfies `wwpns_wf`.
pub fn check_wwpns(ws: &Vec<Wwpn>) -> (r: bool)
    ensures
        r == wwpns_wf(wwpns_view(ws@)),
{
    let ghost wv = wwpns_view(ws@);
    let mut a: usize = 0;
    while a < ws.len()
        invariant
            wv == wwpns_view(ws@),
            a <= ws.len(),
            forall|x: int, y: int| 0 <= x < a && x < y < ws.len() ==> #[trigger] wv[x].id != #[trigger] wv[y].id,
            forall|x: int| 0 <= x < a ==> luns_unique(#[trigger] wv[x].disks),
        decreases ws.len() - a,
    {
        if !check_luns(&ws[a].disks) {
            assert(!luns_unique(wv[a as int].disks));
            return false;
        }
        let mut b: usize = a + 1;
        while b < ws.len()
            invariant
                wv == wwpns_view(ws@),
                a < ws.len(),
                a + 1 <= b <= ws.len(),
                forall|x: int, y: int| 0 <= x < a && x < y < ws.len() ==> #[trigger] wv[x].id != #[trigger] wv[y].id,
                forall|y: int| a < y < b ==> wv[a as int].id != #[trigger] wv[y].id,
            decreases ws.len() - b,
        {
            if ws[a].id.eq(&ws[b].id) {
                assert(wv[a as int].id == wv[b as int].id);
                return false;
            }
            b += 1;
        }
        a += 1;
    }
    true
}

/// Whether `cs` satisfies `hierarchy_wf`.
pub fn check_controllers(cs: &Vec<Controller>) -> (r: bool)
    ensures
        r == hierarchy_wf(controllers_view(cs@)),
{
    let ghost cv = controllers_view(cs@);
    let mut a: usize = 0;
    while a < cs.len()
        invariant
            cv == controllers_view(cs@),
            a <= cs.len(),
            forall|x: int, y: int| 0 <= x < a && x < y < cs.len() ==> #[trigger] cv[x].id != #[trigger] cv[y].id,
            forall|x: int| 0 <= x < a ==> controller_wf(#[trigger] cv[x]),
        decreases cs.len() - a,
    {
        let inactive_with_ports = cs[a].state == ControllerState::Inactive && cs[a].wwpns.len() > 0;
        if inactive_with_ports || !check_wwpns(&cs[a].wwpns) {
            assert(!controller_wf(cv[a as int]));
            return false;
        }
        let mut b: usize = a + 1;
        while b < cs.len()
            invariant
                cv == controllers_view(cs@),
                a < cs.len(),
                a + 1 <= b <= cs.len(),
                forall|x: int, y: int| 0 <= x < a && x < y < cs.len() ==> #[trigger] cv[x].id != #[trigger] cv[y].id,
                forall|y: int| a < y < b ==> cv[a as int].id != #[trigger] cv[y].id,
            decreases cs.len() - b,
        {
            if cs[a].id.eq(&cs[b].id) {
                assert(cv[a as int].id == cv[b as int].id);
                return false;
            }
            b += 1;
        }
        a += 1;
    }
    true
}

/// Index of the controller named `id`.
pub fn find_controller(cs: &Vec<Controller>, id: &String) -> (r: Option<usize>)
    requires
        hierarchy_wf(controllers_view(cs@)),
    ensures
        match r {
            Some(i) => i as int == controller_index(controllers_view(cs@), id@) && i < cs@.len(),
            None => controller_index(controllers_view(cs@), id@) == -1,
        },
{
    let ghost cv = controllers_view(cs@);
    let mut i: usize = 0;
    while i < cs.len()
        invariant
            cv == controllers_view(cs@),
            hierarchy_wf(cv),
            i <= cs.len(),
            forall|x: int| 0 <= x < i ==> (#[trigger] cv[x]).id != id@,
        decreases cs.len() - i,
    {
        if cs[i].id.eq(id) {
            assert(cv[i as int].id == id@);
            let ghost k = controller_index(cv, id@);
            assert(cv[k].id == id@ && 0 <= k < cv.len());
            assert(k == i as int) by {
                if k < i as int {
                    assert(cv[k].id != cv[i as int].id);
                } else if k > i as int {
                    assert(cv[i as int].id != cv[k].id);
                }
            }
            return Some(i);
        }
        i += 1;
    }
    None
}

/// Index of the WWPN named `id`.
pub fn find_wwpn(ws: &Vec<Wwpn>, id: &String) -> (r: Option<usize>)
    requires
        wwpns_wf(wwpns_view(ws@)),
    ensures
        match r {
            Some(i) => i as int == wwpn_index(wwpns_view(ws@), id@) && i < ws@.len(),
            None => wwpn_index(wwpns_view(ws@), id@) == -1,
        },
{
    let ghost wv = wwpns_view(ws@);
    let mut i: usize = 0;
    while i < ws.len()
        invariant
            wv == wwpns_view(ws@),
            wwpns_wf(wv),
            i <= ws.len(),
            forall|x: int| 0 <= x < i ==> (#[trigger] wv[x]).id != id@,
        decreases ws.len() - i,
    {
        if ws[i].id.eq(id) {
            assert(wv[i as int].id == id@);
            let ghost k = wwpn_index(wv, id@);
            assert(wv[k].id == id@ && 0 <= k < wv.len());
            assert(k == i as int) by {
                if k < i as int {
                    assert(wv[k].id != wv[i as int].id);
                } else if k > i as int {
                    assert(wv[i as int].id != wv[k].id);
                }
            }
            return Some(i);
        }
        i += 1;
    }
    None
}

/// Index of the LUN `lun`.
pub fn find_lun(ds: &Vec<Disk>, lun: &String) -> (r: Option<usize>)
    requires
        luns_unique(disks_view(ds@)),
    ensures
        match r {
            Some(i) => i as int == lun_index(disks_view(ds@), lun@) && i < ds@.len(),
            None => lun_index(disks_view(ds@), lun@) == -1,
        },
{
    let ghost dv = disks_view(ds@);
    let mut i: usize = 0;
    while i < ds.len()
        invariant
            dv == disks_view(ds@),
            luns_unique(dv),
            i <= ds.len(),
            forall|x: int| 0 <= x < i ==> (#[trigger] dv[x]).lun != lun@,
        decreases ds.len() - i,
    {
        if ds[i].lun.eq(lun) {
            assert(dv[i as int].lun == lun@);
            let ghost k = lun_index(dv, lun@);
            assert(dv[k].lun == lun@ && 0 <= k < dv.len());
            assert(k == i as int) by {
                if k < i as int {
                    assert(dv[k].lun != dv[i as int].lun);
                } else if k > i as int {
                    assert(dv[i as int].lun != dv[k].lun);
                }
            }
            return Some(i);
        }
        i += 1;
    }
    None
}

/// A copy of `ds`.
pub fn copy_disks(ds: &Vec<Disk>) -> (r: Vec<Disk>)
    ensures
        disks_view(r@) == disks_view(ds@),
{
    let mut r: Vec<Disk> = Vec::new();
    let mut i: usize = 0;
    while i < ds.len()
        invariant
            i <= ds.len(),
            r@.len() == i,
            forall|j: int| 0 <= j < i ==> (#[trigger] r@[j])@ == ds@[j]@,
        decreases ds.len() - i,
    {
        r.push(Disk { lun: ds[i].lun.clone(), state: ds[i].state });
        i += 1;
    }
    assert(disks_view(r@) =~= disks_view(ds@));
    r
}

/// A copy of `ws`.
pub fn copy_wwpns(ws: &Vec<Wwpn>) -> (r: Vec<Wwpn>)
    ensures
        wwpns_view(r@) == wwpns_view(ws@),
{
    let mut r: Vec<Wwpn> = Vec::new();
    let mut i: usize = 0;
    while i < ws.len()
        invariant
            i <= ws.len(),
            r@.len() == i,
            forall|j: int| 0 <= j < i ==> (#[trigger] r@[j])@ == ws@[j]@,
        decreases ws.len() - i,
    {
        r.push(Wwpn { id: ws[i].id.clone(), disks: copy_disks(&ws[i].disks) });
        i += 1;
    }
    assert(wwpns_view(r@) =~= wwpns_view(ws@));
    r
}

/// A copy of `cs`.
pub fn copy_controllers(cs: &Vec<Controller>) -> (r: Vec<Controller>)
    ensures
        controllers_view(r@) == controllers_view(cs@),
{
    let mut r: Vec<Controller> = Vec::new();
    let mut i: usize = 0;
    while i < cs.len()
        invariant
            i <= cs.len(),
            r@.len() == i,
            forall|j: int| 0 <= j < i ==> (#[trigger] r@[j])@ == cs@[j]@,
        decreases cs.len() - i,
    {
        r.push(Controller { id: cs[i].id.clone(), state: cs[i].state, wwpns: copy_wwpns(&cs[i].wwpns) });
        i += 1;
    }
    assert(controllers_view(r@) =~= controllers_view(cs@));
    r
}

} // verus!
