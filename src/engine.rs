//! The activation engine.
//!
//! Every operation that needs the hardware-management subsystem is split in two:
//! a `*_request` that decides, from the current hierarchy alone, whether the
//! subsystem must be called at all, and a `*_complete` that takes what the
//! subsystem answered and applies it. Whoever owns the connection runs the call
//! in between. A request that fails, or that finds the work already done, asks
//! for no call.
use vstd::prelude::*;
use vstd::string::StringExecFns;

use crate::error::ZfcpError;
use crate::model::{
    check_controllers, check_wwpns, controller_index, controller_wf, controllers_view, copy_controllers,
    disk_luns, find_controller, find_lun, find_wwpn, hierarchy_wf, lun_index, string_views,
    wwpn_ids, wwpn_index, wwpns_view, wwpns_wf, Controller, ControllerState, ControllerView,
    luns_unique, DiskState, DiskView, Wwpn, WwpnView,
};

verus! {

/// What a request asks of the caller.
#[derive(Clone, Copy, Debug, PartialEq, Eq, Structural)]
pub enum Step {
    /// The hierarchy already is in the requested state: make no call.
    AlreadyDone,
    /// Call the hardware-management subsystem, then hand its answer to the
    /// matching `*_complete`.
    CallHardware,
}

/// The zFCP state of one host: whether the platform supports zFCP, and the
/// hierarchy found by the last probe, in discovery order.
pub struct ZfcpService {
    pub supported: bool,
    pub controllers: Vec<Controller>,
}

/// What `activate_controller_request` decides on a hierarchy.
pub open spec fn activate_controller_step(supported: bool, cs: Seq<ControllerView>, id: Seq<char>) -> Result<Step, ZfcpError> {
    if !supported {
        Err(ZfcpError::NotSupported)
    } else if controller_index(cs, id) < 0 {
        Err(ZfcpError::UnknownController)
    } else if cs[controller_index(cs, id)].state == ControllerState::Active {
        Ok(Step::AlreadyDone)
    } else {
        Ok(Step::CallHardware)
    }
}

/// The hierarchy once controller `id` is active with the WWPNs `ws`.
pub open spec fn with_controller_active(cs: Seq<ControllerView>, id: Seq<char>, ws: Seq<WwpnView>) -> Seq<ControllerView> {
    let i = controller_index(cs, id);
    cs.update(i, ControllerView { id: cs[i].id, state: ControllerState::Active, wwpns: ws })
}

/// Where the disk at (`c`, `w`, `l`) stands, or which level of the address
/// names nothing in the hierarchy.
pub open spec fn disk_address(supported: bool, cs: Seq<ControllerView>, c: Seq<char>, w: Seq<char>, l: Seq<char>) -> Result<(int, int, int), ZfcpError> {
    let i = controller_index(cs, c);
    if !supported {
        Err(ZfcpError::NotSupported)
    } else if i < 0 {
        Err(ZfcpError::UnknownController)
    } else {
        let j = wwpn_index(cs[i].wwpns, w);
        if j < 0 {
            Err(ZfcpError::UnknownWwpn)
        } else {
            let k = lun_index(cs[i].wwpns[j].disks, l);
            if k < 0 {
                Err(ZfcpError::UnknownLun)
            } else {
                Ok((i, j, k))
            }
        }
    }
}

/// Where the disk at (`c`, `w`, `l`) stands for an activation, which also
/// needs its controller to be active already.
pub open spec fn disk_target(supported: bool, cs: Seq<ControllerView>, c: Seq<char>, w: Seq<char>, l: Seq<char>) -> Result<(int, int, int), ZfcpError> {
    let i = controller_index(cs, c);
    if supported && i >= 0 && cs[i].state == ControllerState::Inactive {
        Err(ZfcpError::PreconditionFailed)
    } else {
        disk_address(supported, cs, c, w, l)
    }
}

/// The state of the disk at position (`i`, `j`, `k`).
pub open spec fn disk_state_at(cs: Seq<ControllerView>, t: (int, int, int)) -> DiskState {
    cs[t.0].wwpns[t.1].disks[t.2].state
}

/// What `activate_disk_request` decides on a hierarchy.
pub open spec fn activate_disk_step(supported: bool, cs: Seq<ControllerView>, c: Seq<char>, w: Seq<char>, l: Seq<char>) -> Result<Step, ZfcpError> {
    match disk_target(supported, cs, c, w, l) {
        Err(e) => Err(e),
        Ok(t) => if disk_state_at(cs, t) == DiskState::Active {
            Ok(Step::AlreadyDone)
        } else {
            Ok(Step::CallHardware)
        },
    }
}

/// What `deactivate_disk_request` decides on a hierarchy.
pub open spec fn deactivate_disk_step(supported: bool, cs: Seq<ControllerView>, c: Seq<char>, w: Seq<char>, l: Seq<char>) -> Result<Step, ZfcpError> {
    match disk_address(supported, cs, c, w, l) {
        Err(e) => Err(e),
        Ok(t) => if disk_state_at(cs, t) == DiskState::Inactive {
            Ok(Step::AlreadyDone)
        } else {
            Ok(Step::CallHardware)
        },
    }
}

/// The hierarchy with the disk at position `t` in state `st`, all else kept.
pub open spec fn with_disk_state(cs: Seq<ControllerView>, t: (int, int, int), st: DiskState) -> Seq<ControllerView> {
    let c = cs[t.0];
    let w = c.wwpns[t.1];
    let d = w.disks[t.2];
    cs.update(t.0, ControllerView {
        wwpns: c.wwpns.update(t.1, WwpnView {
            disks: w.disks.update(t.2, DiskView { state: st, ..d }),
            ..w
        }),
        ..c
    })
}

/// Activating a controller twice: once the first activation has succeeded, the
/// controller is active, the hierarchy is still well formed, and a second
/// request asks for no hardware call (so its completion changes nothing).
pub proof fn lemma_activate_controller_idempotent(supported: bool, cs: Seq<ControllerView>, id: Seq<char>, ws: Seq<WwpnView>)
    requires
        hierarchy_wf(cs),
        wwpns_wf(ws),
        activate_controller_step(supported, cs, id) is Ok,
    ensures
        ({
            let after = if activate_controller_step(supported, cs, id) == Ok::<Step, ZfcpError>(Step::CallHardware) {
                with_controller_active(cs, id, ws)
            } else {
                cs
            };
            &&& hierarchy_wf(after)
            &&& controller_index(after, id) == controller_index(cs, id)
            &&& after[controller_index(after, id)].state == ControllerState::Active
            &&& activate_controller_step(supported, after, id) == Ok::<Step, ZfcpError>(Step::AlreadyDone)
        }),
{
    let i = controller_index(cs, id);
    if activate_controller_step(supported, cs, id) == Ok::<Step, ZfcpError>(Step::CallHardware) {
        let after = with_controller_active(cs, id, ws);
        assert(after[i].id == id);
        assert(forall|x: int| 0 <= x < after.len() ==> (#[trigger] after[x]).id == cs[x].id);
        let k = controller_index(after, id);
        assert(0 <= k < after.len() && after[k].id == id);
        assert(k == i) by {
            if k < i {
                assert(cs[k].id != cs[i].id);
            } else if k > i {
                assert(cs[i].id != cs[k].id);
            }
        }
        assert(forall|x: int| 0 <= x < after.len() && x != i ==> (#[trigger] after[x]) == cs[x]);
    }
}

/// Activating a disk behind an inactive controller is always refused with
/// `PreconditionFailed`, whatever the WWPN and LUN, so no hardware call is
/// made.
pub proof fn lemma_inactive_controller_refuses_disk(cs: Seq<ControllerView>, c: Seq<char>, w: Seq<char>, l: Seq<char>)
    requires
        controller_index(cs, c) >= 0,
        cs[controller_index(cs, c)].state == ControllerState::Inactive,
    ensures
        activate_disk_step(true, cs, c, w, l) == Err::<Step, ZfcpError>(ZfcpError::PreconditionFailed),
{
}

/// Deactivation puts no condition on the controller: behind a known but
/// inactive controller, which shows no WWPN, the WWPN is reported unknown.
pub proof fn lemma_inactive_controller_has_no_disk_to_deactivate(cs: Seq<ControllerView>, c: Seq<char>, w: Seq<char>, l: Seq<char>)
    requires
        hierarchy_wf(cs),
        controller_index(cs, c) >= 0,
        cs[controller_index(cs, c)].state == ControllerState::Inactive,
    ensures
        deactivate_disk_step(true, cs, c, w, l) == Err::<Step, ZfcpError>(ZfcpError::UnknownWwpn),
{
    assert(controller_wf(cs[controller_index(cs, c)]));
}

/// Changing a disk's state moves nothing: the same identifiers still address
/// the same positions.
pub proof fn lemma_disk_address_stable(supported: bool, cs: Seq<ControllerView>, c: Seq<char>, w: Seq<char>, l: Seq<char>, st: DiskState)
    requires
        hierarchy_wf(cs),
        disk_address(supported, cs, c, w, l) is Ok,
    ensures
        ({
            let t = disk_address(supported, cs, c, w, l)->Ok_0;
            let after = with_disk_state(cs, t, st);
            &&& disk_address(supported, after, c, w, l) == Ok::<(int, int, int), ZfcpError>(t)
            &&& disk_target(supported, after, c, w, l) == disk_target(supported, cs, c, w, l)
            &&& disk_state_at(after, t) == st
        }),
{
    let t = disk_address(supported, cs, c, w, l)->Ok_0;
    let (i, j, k) = t;
    let after = with_disk_state(cs, t, st);
    assert(controller_wf(cs[i]));
    assert(luns_unique(cs[i].wwpns[j].disks));
    assert(forall|x: int| 0 <= x < after.len() ==> (#[trigger] after[x]).id == cs[x].id);
    let i2 = controller_index(after, c);
    assert(after[i].id == c);
    assert(i2 == i) by {
        if i2 < i {
            assert(cs[i2].id != cs[i].id);
        } else if i2 > i {
            assert(cs[i].id != cs[i2].id);
        }
    }
    let ws = cs[i].wwpns;
    let ws2 = after[i].wwpns;
    assert(forall|x: int| 0 <= x < ws2.len() ==> (#[trigger] ws2[x]).id == ws[x].id);
    let j2 = wwpn_index(ws2, w);
    assert(ws2[j].id == w);
    assert(j2 == j) by {
        if j2 < j {
            assert(ws[j2].id != ws[j].id);
        } else if j2 > j {
            assert(ws[j].id != ws[j2].id);
        }
    }
    let ds = ws[j].disks;
    let ds2 = ws2[j].disks;
    assert(forall|x: int| 0 <= x < ds2.len() ==> (#[trigger] ds2[x]).lun == ds[x].lun);
    let k2 = lun_index(ds2, l);
    assert(ds2[k].lun == l);
    assert(k2 == k) by {
        if k2 < k {
            assert(ds[k2].lun != ds[k].lun);
        } else if k2 > k {
            assert(ds[k].lun != ds[k2].lun);
        }
    }
}

/// Activating a disk twice: once the first activation has succeeded, a second
/// request asks for no hardware call.
pub proof fn lemma_activate_disk_idempotent(supported: bool, cs: Seq<ControllerView>, c: Seq<char>, w: Seq<char>, l: Seq<char>)
    requires
        hierarchy_wf(cs),
        activate_disk_step(supported, cs, c, w, l) == Ok::<Step, ZfcpError>(Step::CallHardware),
    ensures
        activate_disk_step(
            supported,
            with_disk_state(cs, disk_target(supported, cs, c, w, l)->Ok_0, DiskState::Active),
            c, w, l,
        ) == Ok::<Step, ZfcpError>(Step::AlreadyDone),
{
    lemma_disk_address_stable(supported, cs, c, w, l, DiskState::Active);
}

/// Deactivating a disk twice: once the first deactivation has succeeded, a
/// second request asks for no hardware call.
pub proof fn lemma_deactivate_disk_idempotent(supported: bool, cs: Seq<ControllerView>, c: Seq<char>, w: Seq<char>, l: Seq<char>)
    requires
        hierarchy_wf(cs),
        deactivate_disk_step(supported, cs, c, w, l) == Ok::<Step, ZfcpError>(Step::CallHardware),
    ensures
        deactivate_disk_step(
            supported,
            with_disk_state(cs, disk_address(supported, cs, c, w, l)->Ok_0, DiskState::Inactive),
            c, w, l,
        ) == Ok::<Step, ZfcpError>(Step::AlreadyDone),
{
    lemma_disk_address_stable(supported, cs, c, w, l, DiskState::Inactive);
}

/// Text of the failure reported when the subsystem describes an impossible
/// hierarchy (a repeated identifier, or ports behind an inactive controller).
pub open spec fn inconsistent_report_text() -> Seq<char> {
    "inconsistent report"@
}

fn inconsistent_report() -> (r: ZfcpError)
    ensures
        r is ActivationFailed,
        r->ActivationFailed_0@ == inconsistent_report_text(),
{
    ZfcpError::ActivationFailed(String::from_str("inconsistent report"))
}

/// A service for a platform whose zFCP support is `supported`, with nothing
/// probed yet.
pub fn zfcp_service(supported: bool) -> (r: ZfcpService)
    ensures
        r.wf(),
        r.supported == supported,
        r@ == Seq::<ControllerView>::empty(),
{
    ZfcpService::new(supported)
}

impl View for ZfcpService {
    type V = Seq<ControllerView>;

    open spec fn view(&self) -> Seq<ControllerView> {
        controllers_view(self.controllers@)
    }
}

impl ZfcpService {
    /// The hierarchy obeys its invariants.
    pub open spec fn wf(&self) -> bool {
        hierarchy_wf(self@)
    }

    /// A service for a platform whose zFCP support is `supported`, with nothing
    /// probed yet.
    pub fn new(supported: bool) -> (r: Self)
        ensures
            r.wf(),
            r.supported == supported,
            r@ == Seq::<ControllerView>::empty(),
    {
        let r = ZfcpService { supported, controllers: Vec::new() };
        assert(r@ =~= Seq::<ControllerView>::empty());
        r
    }

    /// Whether the platform supports zFCP.
    pub fn supported(&self) -> (r: bool)
        ensures
            r == self.supported,
    {
        self.supported
    }

    /// The known controllers, in discovery order.
    pub fn list_controllers(&self) -> (r: Result<Vec<Controller>, ZfcpError>)
        ensures
            !self.supported ==> r == Err::<Vec<Controller>, ZfcpError>(ZfcpError::NotSupported),
            self.supported ==> r is Ok && controllers_view(r->Ok_0@) == self@,
    {
        if !self.supported {
            return Err(ZfcpError::NotSupported);
        }
        Ok(copy_controllers(&self.controllers))
    }

    /// The WWPNs of controller `controller_id`, in enumeration order.
    pub fn list_wwpns(&self, controller_id: &String) -> (r: Result<Vec<String>, ZfcpError>)
        requires
            self.wf(),
        ensures
            !self.supported ==> r == Err::<Vec<String>, ZfcpError>(ZfcpError::NotSupported),
            self.supported && controller_index(self@, controller_id@) < 0
                ==> r == Err::<Vec<String>, ZfcpError>(ZfcpError::UnknownController),
            self.supported && controller_index(self@, controller_id@) >= 0 ==> r is Ok
                && string_views(r->Ok_0@) == wwpn_ids(self@[controller_index(self@, controller_id@)].wwpns),
    {
        if !self.supported {
            return Err(ZfcpError::NotSupported);
        }
        match find_controller(&self.controllers, controller_id) {
            None => Err(ZfcpError::UnknownController),
            Some(i) => {
                let ws = &self.controllers[i].wwpns;
                let ghost wv = wwpns_view(ws@);
                let mut r: Vec<String> = Vec::new();
                let mut j: usize = 0;
                while j < ws.len()
                    invariant
                        wv == wwpns_view(ws@),
                        j <= ws.len(),
                        r@.len() == j,
                        forall|x: int| 0 <= x < j ==> (#[trigger] r@[x])@ == wv[x].id,
                    decreases ws.len() - j,
                {
                    r.push(ws[j].id.clone());
                    j += 1;
                }
                assert(string_views(r@) =~= wwpn_ids(wv));
                Ok(r)
            },
        }
    }

    /// The LUNs behind WWPN `wwpn_id` of controller `controller_id`, in
    /// enumeration order.
    pub fn list_luns(&self, controller_id: &String, wwpn_id: &String) -> (r: Result<Vec<String>, ZfcpError>)
        requires
            self.wf(),
        ensures
            ({
                let i = controller_index(self@, controller_id@);
                let j = wwpn_index(self@[i].wwpns, wwpn_id@);
                &&& !self.supported ==> r == Err::<Vec<String>, ZfcpError>(ZfcpError::NotSupported)
                &&& self.supported && i < 0 ==> r == Err::<Vec<String>, ZfcpError>(ZfcpError::UnknownController)
                &&& self.supported && i >= 0 && j < 0 ==> r == Err::<Vec<String>, ZfcpError>(ZfcpError::UnknownWwpn)
                &&& self.supported && i >= 0 && j >= 0 ==> r is Ok
                    && string_views(r->Ok_0@) == disk_luns(self@[i].wwpns[j].disks)
            }),
    {
        if !self.supported {
            return Err(ZfcpError::NotSupported);
        }
        let i = match find_controller(&self.controllers, controller_id) {
            None => { return Err(ZfcpError::UnknownController); },
            Some(i) => i,
        };
        assert(self@[i as int] == self.controllers@[i as int]@);
        let j = match find_wwpn(&self.controllers[i].wwpns, wwpn_id) {
            None => { return Err(ZfcpError::UnknownWwpn); },
            Some(j) => j,
        };
        let ds = &self.controllers[i].wwpns[j].disks;
        let ghost dv = self@[i as int].wwpns[j as int].disks;
        let mut r: Vec<String> = Vec::new();
        let mut k: usize = 0;
        while k < ds.len()
            invariant
                dv == crate::model::disks_view(ds@),
                k <= ds.len(),
                r@.len() == k,
                forall|x: int| 0 <= x < k ==> (#[trigger] r@[x])@ == dv[x].lun,
            decreases ds.len() - k,
        {
            r.push(ds[k].lun.clone());
            k += 1;
        }
        assert(string_views(r@) =~= disk_luns(dv));
        Ok(r)
    }

    /// Decides whether activating controller `id` needs the subsystem.
    pub fn activate_controller_request(&self, id: &String) -> (r: Result<Step, ZfcpError>)
        requires
            self.wf(),
        ensures
            r == activate_controller_step(self.supported, self@, id@),
    {
        if !self.supported {
            return Err(ZfcpError::NotSupported);
        }
        match find_controller(&self.controllers, id) {
            None => Err(ZfcpError::UnknownController),
            Some(i) => {
                assert(self@[i as int] == self.controllers@[i as int]@);
                if self.controllers[i].state == ControllerState::Active {
                    Ok(Step::AlreadyDone)
                } else {
                    Ok(Step::CallHardware)
                }
            },
        }
    }

    /// Applies the subsystem's answer to activating controller `id`: the WWPNs
    /// it now reports, or the reason it refused. A refused or inconsistent
    /// answer leaves the hierarchy as it was.
    pub fn activate_controller_complete(&mut self, id: &String, outcome: Result<Vec<Wwpn>, String>) -> (r: Result<(), ZfcpError>)
        requires
            old(self).wf(),
        ensures
            final(self).wf(),
            final(self).supported == old(self).supported,
            match activate_controller_step(old(self).supported, old(self)@, id@) {
                Err(e) => r == Err::<(), ZfcpError>(e) && final(self)@ == old(self)@,
                Ok(Step::AlreadyDone) => r == Ok::<(), ZfcpError>(()) && final(self)@ == old(self)@,
                Ok(Step::CallHardware) => match outcome {
                    Err(reason) => r == Err::<(), ZfcpError>(ZfcpError::ActivationFailed(reason))
                        && final(self)@ == old(self)@,
                    Ok(ws) => if wwpns_wf(wwpns_view(ws@)) {
                        r == Ok::<(), ZfcpError>(())
                            && final(self)@ == with_controller_active(old(self)@, id@, wwpns_view(ws@))
                    } else {
                        r is Err && r->Err_0 is ActivationFailed
                            && r->Err_0->ActivationFailed_0@ == inconsistent_report_text()
                            && final(self)@ == old(self)@
                    },
                },
            },
    {
        let step = self.activate_controller_request(id);
        match step {
            Err(e) => Err(e),
            Ok(Step::AlreadyDone) => Ok(()),
            Ok(Step::CallHardware) => match outcome {
                Err(reason) => Err(ZfcpError::ActivationFailed(reason)),
                Ok(ws) => {
                    if !check_wwpns(&ws) {
                        return Err(inconsistent_report());
                    }
                    let i = find_controller(&self.controllers, id).unwrap();
                    let ghost before = self@;
                    self.controllers[i].state = ControllerState::Active;
                    self.controllers[i].wwpns = ws;
                    assert(self@ =~= with_controller_active(before, id@, wwpns_view(ws@)));
                    assert(controller_wf(self@[i as int]));
                    Ok(())
                },
            },
        }
    }
    /// Positions of the disk at (`c`, `w`, `l`), or why it cannot be addressed;
    /// with `for_activation`, an inactive controller refuses it first.
    fn locate_disk(&self, c: &String, w: &String, l: &String, for_activation: bool) -> (r: Result<(usize, usize, usize), ZfcpError>)
        requires
            self.wf(),
        ensures
            match (if for_activation {
                disk_target(self.supported, self@, c@, w@, l@)
            } else {
                disk_address(self.supported, self@, c@, w@, l@)
            }) {
                Err(e) => r == Err::<(usize, usize, usize), ZfcpError>(e),
                Ok(t) => r is Ok && r->Ok_0.0 as int == t.0 && r->Ok_0.1 as int == t.1
                    && r->Ok_0.2 as int == t.2,
            },
            r is Ok ==> r->Ok_0.0 < self@.len() && r->Ok_0.1 < self@[r->Ok_0.0 as int].wwpns.len()
                && r->Ok_0.2 < self@[r->Ok_0.0 as int].wwpns[r->Ok_0.1 as int].disks.len(),
    {
        if !self.supported {
            return Err(ZfcpError::NotSupported);
        }
        let i = match find_controller(&self.controllers, c) {
            None => { return Err(ZfcpError::UnknownController); },
            Some(i) => i,
        };
        assert(self@[i as int] == self.controllers@[i as int]@);
        if for_activation && self.controllers[i].state == ControllerState::Inactive {
            return Err(ZfcpError::PreconditionFailed);
        }
        assert(controller_wf(self@[i as int]));
        let j = match find_wwpn(&self.controllers[i].wwpns, w) {
            None => { return Err(ZfcpError::UnknownWwpn); },
            Some(j) => j,
        };
        assert(self@[i as int].wwpns[j as int] == self.controllers@[i as int].wwpns@[j as int]@);
        let k = match find_lun(&self.controllers[i].wwpns[j].disks, l) {
            None => { return Err(ZfcpError::UnknownLun); },
            Some(k) => k,
        };
        Ok((i, j, k))
    }

    /// Puts the disk at positions (`i`, `j`, `k`) in state `st`.
    fn set_disk_state(&mut self, i: usize, j: usize, k: usize, st: DiskState)
        requires
            old(self).wf(),
            i < old(self)@.len(),
            j < old(self)@[i as int].wwpns.len(),
            k < old(self)@[i as int].wwpns[j as int].disks.len(),
        ensures
            final(self).wf(),
            final(self).supported == old(self).supported,
            final(self)@ == with_disk_state(old(self)@, (i as int, j as int, k as int), st),
    {
        let ghost before = self@;
        assert(self@[i as int] == self.controllers@[i as int]@);
        assert(self@[i as int].wwpns[j as int] == self.controllers@[i as int].wwpns@[j as int]@);
        self.controllers[i].wwpns[j].disks[k].state = st;
        let ghost after = with_disk_state(before, (i as int, j as int, k as int), st);
        assert(self@[i as int].wwpns[j as int].disks =~= after[i as int].wwpns[j as int].disks);
        assert(self@[i as int].wwpns =~= after[i as int].wwpns);
        assert(self@ =~= after);
        assert(controller_wf(self@[i as int])) by {
            assert(controller_wf(before[i as int]));
            let ws = self@[i as int].wwpns;
            assert(forall|x: int| 0 <= x < ws.len() ==> disk_luns((#[trigger] ws[x]).disks) == disk_luns(before[i as int].wwpns[x].disks));
            assert(luns_unique(before[i as int].wwpns[j as int].disks));
            assert(luns_unique(ws[j as int].disks));
        }
    }

    /// Decides whether activating the disk at (`controller_id`, `wwpn_id`,
    /// `lun_id`) needs the subsystem. An inactive controller refuses it.
    pub fn activate_disk_request(&self, controller_id: &String, wwpn_id: &String, lun_id: &String) -> (r: Result<Step, ZfcpError>)
        requires
            self.wf(),
        ensures
            r == activate_disk_step(self.supported, self@, controller_id@, wwpn_id@, lun_id@),
    {
        let (i, j, k) = match self.locate_disk(controller_id, wwpn_id, lun_id, true) {
            Err(e) => { return Err(e); },
            Ok(t) => t,
        };
        assert(self@[i as int].wwpns[j as int].disks[k as int]
            == self.controllers@[i as int].wwpns@[j as int].disks@[k as int]@);
        if self.controllers[i].wwpns[j].disks[k].state == DiskState::Active {
            Ok(Step::AlreadyDone)
        } else {
            Ok(Step::CallHardware)
        }
    }

    /// Applies the subsystem's answer to activating the disk at
    /// (`controller_id`, `wwpn_id`, `lun_id`): on success the disk is active,
    /// on failure it is marked as failed and the reason is returned.
    pub fn activate_disk_complete(&mut self, controller_id: &String, wwpn_id: &String, lun_id: &String, outcome: Result<(), String>) -> (r: Result<(), ZfcpError>)
        requires
            old(self).wf(),
        ensures
            final(self).wf(),
            final(self).supported == old(self).supported,
            match activate_disk_step(old(self).supported, old(self)@, controller_id@, wwpn_id@, lun_id@) {
                Err(e) => r == Err::<(), ZfcpError>(e) && final(self)@ == old(self)@,
                Ok(Step::AlreadyDone) => r == Ok::<(), ZfcpError>(()) && final(self)@ == old(self)@,
                Ok(Step::CallHardware) => {
                    let t = disk_target(old(self).supported, old(self)@, controller_id@, wwpn_id@, lun_id@)->Ok_0;
                    match outcome {
                        Ok(_) => r == Ok::<(), ZfcpError>(())
                            && final(self)@ == with_disk_state(old(self)@, t, DiskState::Active),
                        Err(reason) => r == Err::<(), ZfcpError>(ZfcpError::ActivationFailed(reason))
                            && final(self)@ == with_disk_state(old(self)@, t, DiskState::ActivationFailed),
                    }
                },
            },
    {
        match self.activate_disk_request(controller_id, wwpn_id, lun_id) {
            Err(e) => Err(e),
            Ok(Step::AlreadyDone) => Ok(()),
            Ok(Step::CallHardware) => {
                let (i, j, k) = self.locate_disk(controller_id, wwpn_id, lun_id, true).unwrap();
                match outcome {
                    Ok(()) => {
                        self.set_disk_state(i, j, k, DiskState::Active);
                        Ok(())
                    },
                    Err(reason) => {
                        self.set_disk_state(i, j, k, DiskState::ActivationFailed);
                        Err(ZfcpError::ActivationFailed(reason))
                    },
                }
            },
        }
    }

    /// Decides whether deactivating the disk at (`controller_id`, `wwpn_id`,
    /// `lun_id`) needs the subsystem; an inactive disk needs nothing.
    pub fn deactivate_disk_request(&self, controller_id: &String, wwpn_id: &String, lun_id: &String) -> (r: Result<Step, ZfcpError>)
        requires
            self.wf(),
        ensures
            r == deactivate_disk_step(self.supported, self@, controller_id@, wwpn_id@, lun_id@),
    {
        let (i, j, k) = match self.locate_disk(controller_id, wwpn_id, lun_id, false) {
            Err(e) => { return Err(e); },
            Ok(t) => t,
        };
        assert(self@[i as int].wwpns[j as int].disks[k as int]
            == self.controllers@[i as int].wwpns@[j as int].disks@[k as int]@);
        if self.controllers[i].wwpns[j].disks[k].state == DiskState::Inactive {
            Ok(Step::AlreadyDone)
        } else {
            Ok(Step::CallHardware)
        }
    }

    /// Applies the subsystem's answer to deactivating the disk at
    /// (`controller_id`, `wwpn_id`, `lun_id`): on success the disk is inactive;
    /// a refusal leaves it as it was and returns the reason.
    pub fn deactivate_disk_complete(&mut self, controller_id: &String, wwpn_id: &String, lun_id: &String, outcome: Result<(), String>) -> (r: Result<(), ZfcpError>)
        requires
            old(self).wf(),
        ensures
            final(self).wf(),
            final(self).supported == old(self).supported,
            match deactivate_disk_step(old(self).supported, old(self)@, controller_id@, wwpn_id@, lun_id@) {
                Err(e) => r == Err::<(), ZfcpError>(e) && final(self)@ == old(self)@,
                Ok(Step::AlreadyDone) => r == Ok::<(), ZfcpError>(()) && final(self)@ == old(self)@,
                Ok(Step::CallHardware) => {
                    let t = disk_address(old(self).supported, old(self)@, controller_id@, wwpn_id@, lun_id@)->Ok_0;
                    match outcome {
                        Ok(_) => r == Ok::<(), ZfcpError>(())
                            && final(self)@ == with_disk_state(old(self)@, t, DiskState::Inactive),
                        Err(reason) => r == Err::<(), ZfcpError>(ZfcpError::ActivationFailed(reason))
                            && final(self)@ == old(self)@,
                    }
                },
            },
    {
        match self.deactivate_disk_request(controller_id, wwpn_id, lun_id) {
            Err(e) => Err(e),
            Ok(Step::AlreadyDone) => Ok(()),
            Ok(Step::CallHardware) => {
                let (i, j, k) = self.locate_disk(controller_id, wwpn_id, lun_id, false).unwrap();
                match outcome {
                    Ok(()) => {
                        self.set_disk_state(i, j, k, DiskState::Inactive);
                        Ok(())
                    },
                    Err(reason) => Err(ZfcpError::ActivationFailed(reason)),
                }
            },
        }
    }

    /// Decides whether a probe may run: only where zFCP is supported.
    pub fn probe_request(&self) -> (r: Result<(), ZfcpError>)
        ensures
            self.supported ==> r == Ok::<(), ZfcpError>(()),
            !self.supported ==> r == Err::<(), ZfcpError>(ZfcpError::NotSupported),
    {
        if self.supported {
            Ok(())
        } else {
            Err(ZfcpError::NotSupported)
        }
    }

    /// Replaces the hierarchy with the one a full scan found, in one step. A
    /// failed or inconsistent scan leaves the previous hierarchy untouched.
    pub fn probe_complete(&mut self, scan: Result<Vec<Controller>, String>) -> (r: Result<(), ZfcpError>)
        requires
            old(self).wf(),
        ensures
            final(self).wf(),
            final(self).supported == old(self).supported,
            !old(self).supported ==> r == Err::<(), ZfcpError>(ZfcpError::NotSupported)
                && final(self).controllers@ == old(self).controllers@,
            old(self).supported ==> match scan {
                Err(reason) => r == Err::<(), ZfcpError>(ZfcpError::ActivationFailed(reason))
                    && final(self).controllers@ == old(self).controllers@,
                Ok(cs) => if hierarchy_wf(controllers_view(cs@)) {
                    r == Ok::<(), ZfcpError>(()) && final(self).controllers@ == cs@
                } else {
                    r is Err && r->Err_0 is ActivationFailed
                        && r->Err_0->ActivationFailed_0@ == inconsistent_report_text()
                        && final(self).controllers@ == old(self).controllers@
                },
            },
    {
        if !self.supported {
            return Err(ZfcpError::NotSupported);
        }
        match scan {
            Err(reason) => Err(ZfcpError::ActivationFailed(reason)),
            Ok(cs) => {
                if !check_controllers(&cs) {
                    return Err(inconsistent_report());
                }
                self.controllers = cs;
                Ok(())
            },
        }
    }
}

} // verus!
