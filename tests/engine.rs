use zfcp::engine::{zfcp_service, Step, ZfcpService};
use zfcp::error::ZfcpError;
use zfcp::model::{
    check_controllers, check_luns, check_wwpns, copy_controllers, find_controller, find_lun,
    find_wwpn, Controller, ControllerState, Disk, DiskState, Wwpn,
};

fn s(x: &str) -> String {
    x.to_string()
}

fn disk(lun: &str, state: DiskState) -> Disk {
    Disk { lun: s(lun), state }
}

fn port(id: &str, luns: &[&str]) -> Wwpn {
    Wwpn { id: s(id), disks: luns.iter().map(|l| disk(l, DiskState::Inactive)).collect() }
}

fn inactive(id: &str) -> Controller {
    Controller { id: s(id), state: ControllerState::Inactive, wwpns: vec![] }
}

/// A supported host that has probed two inactive controllers.
fn probed() -> ZfcpService {
    let mut svc = zfcp_service(true);
    assert_eq!(svc.probe_request(), Ok(()));
    assert_eq!(svc.probe_complete(Ok(vec![inactive("0.0.fc00"), inactive("0.0.fd00")])), Ok(()));
    svc
}

/// `probed`, with 0.0.fc00 activated behind two ports.
fn activated() -> ZfcpService {
    let mut svc = probed();
    let ports = vec![
        port("0x500507630708d3b3", &["0x0013000000000000", "0x0014000000000000"]),
        port("0x500507630703d3b3", &["0x0000000000000000"]),
    ];
    assert_eq!(svc.activate_controller_complete(&s("0.0.fc00"), Ok(ports)), Ok(()));
    svc
}

fn disk_state(svc: &ZfcpService, c: &str, w: &str, l: &str) -> DiskState {
    let cs = svc.list_controllers().unwrap();
    let ctrl = cs.iter().find(|x| x.id == c).unwrap();
    let p = ctrl.wwpns.iter().find(|x| x.id == w).unwrap();
    p.disks.iter().find(|x| x.lun == l).unwrap().state
}

#[test]
fn unsupported_platform_refuses_every_operation() {
    let mut svc = zfcp_service(false);
    let c = s("0.0.fc00");
    let w = s("0x500507630708d3b3");
    let l = s("0x0013000000000000");
    assert!(!svc.supported());
    assert_eq!(svc.list_controllers(), Err(ZfcpError::NotSupported));
    assert_eq!(svc.list_wwpns(&c), Err(ZfcpError::NotSupported));
    assert_eq!(svc.list_luns(&c, &w), Err(ZfcpError::NotSupported));
    assert_eq!(svc.activate_controller_request(&c), Err(ZfcpError::NotSupported));
    assert_eq!(svc.activate_disk_request(&c, &w, &l), Err(ZfcpError::NotSupported));
    assert_eq!(svc.deactivate_disk_request(&c, &w, &l), Err(ZfcpError::NotSupported));
    assert_eq!(svc.probe_request(), Err(ZfcpError::NotSupported));
    assert_eq!(svc.probe_complete(Ok(vec![inactive("0.0.fc00")])), Err(ZfcpError::NotSupported));
    assert_eq!(svc.activate_controller_complete(&c, Ok(vec![])), Err(ZfcpError::NotSupported));
    assert_eq!(svc.activate_disk_complete(&c, &w, &l, Ok(())), Err(ZfcpError::NotSupported));
    assert_eq!(svc.deactivate_disk_complete(&c, &w, &l, Ok(())), Err(ZfcpError::NotSupported));
    assert!(svc.controllers.is_empty());
}

#[test]
fn activated_controller_lists_reported_wwpns() {
    let svc = activated();
    assert_eq!(
        svc.list_wwpns(&s("0.0.fc00")),
        Ok(vec![s("0x500507630708d3b3"), s("0x500507630703d3b3")])
    );
    assert_eq!(
        svc.list_luns(&s("0.0.fc00"), &s("0x500507630708d3b3")),
        Ok(vec![s("0x0013000000000000"), s("0x0014000000000000")])
    );
    assert_eq!(svc.list_wwpns(&s("0.0.fd00")), Ok(vec![]));
}

#[test]
fn deactivate_inactive_disk_changes_nothing() {
    let mut svc = activated();
    let (c, w, l) = (s("0.0.fc00"), s("0x500507630708d3b3"), s("0x0013000000000000"));
    let before = svc.list_controllers().unwrap();
    assert_eq!(svc.deactivate_disk_request(&c, &w, &l), Ok(Step::AlreadyDone));
    assert_eq!(svc.deactivate_disk_complete(&c, &w, &l, Ok(())), Ok(()));
    assert_eq!(svc.list_controllers().unwrap(), before);
}

#[test]
fn activate_controller_twice_makes_one_call() {
    let mut svc = probed();
    let c = s("0.0.fc00");
    assert_eq!(svc.activate_controller_request(&c), Ok(Step::CallHardware));
    let ports = vec![port("0x500507630708d3b3", &["0x0013000000000000"])];
    assert_eq!(svc.activate_controller_complete(&c, Ok(ports)), Ok(()));
    let after_first = svc.list_controllers().unwrap();
    assert_eq!(after_first[0].state, ControllerState::Active);
    assert_eq!(svc.activate_controller_request(&c), Ok(Step::AlreadyDone));
    let other = vec![port("0x1111111111111111", &[])];
    assert_eq!(svc.activate_controller_complete(&c, Ok(other)), Ok(()));
    assert_eq!(svc.list_controllers().unwrap(), after_first);
}

#[test]
fn activate_disk_on_inactive_controller_is_refused() {
    let mut svc = probed();
    let (c, w, l) = (s("0.0.fc00"), s("0x500507630708d3b3"), s("0x0013000000000000"));
    assert_eq!(svc.activate_disk_request(&c, &w, &l), Err(ZfcpError::PreconditionFailed));
    let before = svc.list_controllers().unwrap();
    assert_eq!(svc.activate_disk_complete(&c, &w, &l, Ok(())), Err(ZfcpError::PreconditionFailed));
    assert_eq!(svc.list_controllers().unwrap(), before);
    assert_eq!(svc.deactivate_disk_request(&c, &w, &l), Err(ZfcpError::UnknownWwpn));
}

#[test]
fn deactivate_disk_behind_inactive_controller_reports_unknown_wwpn() {
    let mut svc = probed();
    let (c, w, l) = (s("0.0.fc00"), s("0x500507630708d3b3"), s("0x0013000000000000"));
    let before = svc.list_controllers().unwrap();
    assert_eq!(svc.list_luns(&c, &w), Err(ZfcpError::UnknownWwpn));
    assert_eq!(svc.deactivate_disk_request(&c, &w, &l), Err(ZfcpError::UnknownWwpn));
    assert_eq!(svc.deactivate_disk_complete(&c, &w, &l, Ok(())), Err(ZfcpError::UnknownWwpn));
    assert_eq!(svc.list_controllers().unwrap(), before);
    assert_eq!(svc.deactivate_disk_request(&s("0.0.ffff"), &w, &l), Err(ZfcpError::UnknownController));
}

#[test]
fn unknown_identifiers_are_reported_per_level() {
    let svc = activated();
    let c = s("0.0.fc00");
    let w = s("0x500507630708d3b3");
    assert_eq!(svc.list_wwpns(&s("0.0.ffff")), Err(ZfcpError::UnknownController));
    assert_eq!(svc.list_luns(&s("0.0.ffff"), &w), Err(ZfcpError::UnknownController));
    assert_eq!(svc.list_luns(&c, &s("0x0")), Err(ZfcpError::UnknownWwpn));
    assert_eq!(svc.activate_controller_request(&s("0.0.ffff")), Err(ZfcpError::UnknownController));
    assert_eq!(svc.activate_disk_request(&s("0.0.ffff"), &w, &s("0x0")), Err(ZfcpError::UnknownController));
    assert_eq!(svc.activate_disk_request(&c, &s("0x0"), &s("0x0")), Err(ZfcpError::UnknownWwpn));
    assert_eq!(svc.activate_disk_request(&c, &w, &s("0x0")), Err(ZfcpError::UnknownLun));
}

#[test]
fn identifiers_are_case_sensitive() {
    let svc = activated();
    assert_eq!(svc.list_wwpns(&s("0.0.FC00")), Err(ZfcpError::UnknownController));
    assert_eq!(
        svc.list_luns(&s("0.0.fc00"), &s("0x500507630708D3B3")),
        Err(ZfcpError::UnknownWwpn)
    );
}

#[test]
fn refused_controller_activation_keeps_it_inactive() {
    let mut svc = probed();
    let c = s("0.0.fc00");
    let r = svc.activate_controller_complete(&c, Err(s("module zfcp not loaded")));
    assert_eq!(r, Err(ZfcpError::ActivationFailed(s("module zfcp not loaded"))));
    assert_eq!(svc.list_controllers().unwrap()[0].state, ControllerState::Inactive);
    assert_eq!(svc.activate_controller_request(&c), Ok(Step::CallHardware));
}

#[test]
fn inconsistent_port_report_is_rejected() {
    let mut svc = probed();
    let c = s("0.0.fc00");
    let ports = vec![port("0x1", &["0x0"]), port("0x1", &["0x1"])];
    let r = svc.activate_controller_complete(&c, Ok(ports));
    assert_eq!(r, Err(ZfcpError::ActivationFailed(s("inconsistent report"))));
    assert_eq!(svc.list_controllers().unwrap()[0].state, ControllerState::Inactive);
    let repeated_lun = vec![port("0x1", &["0x0", "0x0"])];
    let r = svc.activate_controller_complete(&c, Ok(repeated_lun));
    assert_eq!(r, Err(ZfcpError::ActivationFailed(s("inconsistent report"))));
}

#[test]
fn disk_activation_success_and_failure_are_observable() {
    let mut svc = activated();
    let c = s("0.0.fc00");
    let w = s("0x500507630708d3b3");
    let (l1, l2) = (s("0x0013000000000000"), s("0x0014000000000000"));
    assert_eq!(svc.activate_disk_request(&c, &w, &l1), Ok(Step::CallHardware));
    assert_eq!(svc.activate_disk_complete(&c, &w, &l1, Ok(())), Ok(()));
    assert_eq!(disk_state(&svc, "0.0.fc00", "0x500507630708d3b3", "0x0013000000000000"), DiskState::Active);
    assert_eq!(svc.activate_disk_request(&c, &w, &l1), Ok(Step::AlreadyDone));
    let r = svc.activate_disk_complete(&c, &w, &l2, Err(s("device busy")));
    assert_eq!(r, Err(ZfcpError::ActivationFailed(s("device busy"))));
    assert_eq!(
        disk_state(&svc, "0.0.fc00", "0x500507630708d3b3", "0x0014000000000000"),
        DiskState::ActivationFailed
    );
    assert_eq!(svc.activate_disk_request(&c, &w, &l2), Ok(Step::CallHardware));
}

#[test]
fn deactivation_of_active_and_failed_disks() {
    let mut svc = activated();
    let c = s("0.0.fc00");
    let w = s("0x500507630708d3b3");
    let (l1, l2) = (s("0x0013000000000000"), s("0x0014000000000000"));
    svc.activate_disk_complete(&c, &w, &l1, Ok(())).unwrap();
    let _ = svc.activate_disk_complete(&c, &w, &l2, Err(s("device busy")));
    assert_eq!(svc.deactivate_disk_request(&c, &w, &l1), Ok(Step::CallHardware));
    let r = svc.deactivate_disk_complete(&c, &w, &l1, Err(s("in use")));
    assert_eq!(r, Err(ZfcpError::ActivationFailed(s("in use"))));
    assert_eq!(disk_state(&svc, "0.0.fc00", "0x500507630708d3b3", "0x0013000000000000"), DiskState::Active);
    assert_eq!(svc.deactivate_disk_complete(&c, &w, &l1, Ok(())), Ok(()));
    assert_eq!(disk_state(&svc, "0.0.fc00", "0x500507630708d3b3", "0x0013000000000000"), DiskState::Inactive);
    assert_eq!(svc.deactivate_disk_request(&c, &w, &l2), Ok(Step::CallHardware));
    assert_eq!(svc.deactivate_disk_complete(&c, &w, &l2, Ok(())), Ok(()));
    assert_eq!(disk_state(&svc, "0.0.fc00", "0x500507630708d3b3", "0x0014000000000000"), DiskState::Inactive);
}

#[test]
fn probe_replaces_or_keeps_the_whole_hierarchy() {
    let mut svc = activated();
    let before = svc.list_controllers().unwrap();
    assert_eq!(svc.probe_complete(Err(s("scan failed"))), Err(ZfcpError::ActivationFailed(s("scan failed"))));
    assert_eq!(svc.list_controllers().unwrap(), before);
    let repeated = vec![inactive("0.0.fc00"), inactive("0.0.fc00")];
    assert_eq!(svc.probe_complete(Ok(repeated)), Err(ZfcpError::ActivationFailed(s("inconsistent report"))));
    assert_eq!(svc.list_controllers().unwrap(), before);
    let ports_when_inactive = vec![Controller {
        id: s("0.0.fc00"),
        state: ControllerState::Inactive,
        wwpns: vec![port("0x1", &[])],
    }];
    assert!(svc.probe_complete(Ok(ports_when_inactive)).is_err());
    assert_eq!(svc.list_controllers().unwrap(), before);
    let fresh = vec![inactive("0.0.fa00"), inactive("0.0.fb00"), inactive("0.0.f900")];
    assert_eq!(svc.probe_complete(Ok(fresh.clone())), Ok(()));
    assert_eq!(svc.list_controllers().unwrap(), fresh);
}

#[test]
fn controllers_keep_discovery_order() {
    let mut svc = zfcp_service(true);
    let found = vec![inactive("0.0.fd00"), inactive("0.0.fa00"), inactive("0.0.fc00")];
    svc.probe_complete(Ok(found)).unwrap();
    let ids: Vec<String> = svc.list_controllers().unwrap().into_iter().map(|c| c.id).collect();
    assert_eq!(ids, vec![s("0.0.fd00"), s("0.0.fa00"), s("0.0.fc00")]);
    assert_eq!(svc.list_controllers(), svc.list_controllers());
}

#[test]
fn checks_and_lookups_on_plain_values() {
    assert!(check_luns(&vec![disk("a", DiskState::Inactive), disk("b", DiskState::Active)]));
    assert!(!check_luns(&vec![disk("a", DiskState::Inactive), disk("a", DiskState::Active)]));
    assert!(check_luns(&vec![]));
    assert!(check_wwpns(&vec![port("p", &["a"]), port("q", &["a"])]));
    assert!(!check_wwpns(&vec![port("p", &["a"]), port("p", &["b"])]));
    let active = Controller { id: s("c"), state: ControllerState::Active, wwpns: vec![port("p", &[])] };
    assert!(check_controllers(&vec![active.clone(), inactive("d")]));
    assert!(!check_controllers(&vec![active.clone(), active.clone()]));
    let cs = vec![inactive("x"), inactive("y")];
    assert_eq!(find_controller(&cs, &s("y")), Some(1));
    assert_eq!(find_controller(&cs, &s("z")), None);
    assert_eq!(find_wwpn(&vec![port("p", &[]), port("q", &[])], &s("q")), Some(1));
    assert_eq!(find_lun(&vec![disk("a", DiskState::Inactive)], &s("b")), None);
    assert_eq!(copy_controllers(&cs), cs);
    assert!(ZfcpService::new(true).supported());
}
