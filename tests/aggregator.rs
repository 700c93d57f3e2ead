use zfcp::aggregator::{
    copy_arrival, deliver, zfcp_stream, Aggregator, Arrival, Change, ChangeKind, Event, Source,
};
use zfcp::error::ZfcpError;

fn change(kind: ChangeKind, device: &str) -> Change {
    Change { kind, device: device.to_string() }
}

fn from(source: Source, kind: ChangeKind, device: &str) -> Arrival {
    Arrival::Notified(source, change(kind, device))
}

#[test]
fn events_are_labelled_by_source() {
    let arrivals = vec![
        from(Source::Controller, ChangeKind::Added, "0.0.fc00"),
        from(Source::Disk, ChangeKind::Added, "0.0.fc00:0x1:0x0"),
        from(Source::Disk, ChangeKind::Changed, "0.0.fc00:0x1:0x0"),
        from(Source::Controller, ChangeKind::Removed, "0.0.fd00"),
    ];
    let (events, open) = deliver(&arrivals);
    assert!(open);
    let labels: Vec<&str> = events.iter().map(|e| e.label()).collect();
    assert_eq!(labels, vec!["controller", "disk", "disk", "controller"]);
    for (e, a) in events.iter().zip(arrivals.iter()) {
        match a {
            Arrival::Notified(src, c) => {
                assert_eq!(e.source, *src);
                assert_eq!(&e.change, c);
            }
            Arrival::Dropped(_) => unreachable!(),
        }
    }
}

#[test]
fn every_notification_is_delivered_in_source_order() {
    let n = 5;
    let m = 3;
    let mut arrivals = vec![];
    for i in 0..n {
        arrivals.push(from(Source::Controller, ChangeKind::Added, &format!("0.0.f{}00", i)));
        if i < m {
            arrivals.push(from(Source::Disk, ChangeKind::Added, &format!("lun{}", i)));
        }
    }
    let (events, open) = deliver(&arrivals);
    assert!(open);
    assert_eq!(events.len(), n + m);
    let controllers: Vec<String> = events
        .iter()
        .filter(|e| e.source == Source::Controller)
        .map(|e| e.change.device.clone())
        .collect();
    let disks: Vec<String> = events
        .iter()
        .filter(|e| e.source == Source::Disk)
        .map(|e| e.change.device.clone())
        .collect();
    assert_eq!(controllers, vec!["0.0.f000", "0.0.f100", "0.0.f200", "0.0.f300", "0.0.f400"]);
    assert_eq!(disks, vec!["lun0", "lun1", "lun2"]);
}

#[test]
fn dropped_source_ends_the_stream() {
    let arrivals = vec![
        from(Source::Disk, ChangeKind::Added, "a"),
        Arrival::Dropped(Source::Controller),
        from(Source::Disk, ChangeKind::Added, "b"),
    ];
    let (events, open) = deliver(&arrivals);
    assert!(!open);
    assert_eq!(events, vec![Event { source: Source::Disk, change: change(ChangeKind::Added, "a") }]);
}

#[test]
fn aggregator_fails_closed() {
    let mut agg = Aggregator::new();
    assert!(agg.is_open());
    let e = agg.accept(from(Source::Controller, ChangeKind::Added, "0.0.fc00")).unwrap();
    assert_eq!(e.label(), "controller");
    assert_eq!(agg.accept(Arrival::Dropped(Source::Disk)), Err(ZfcpError::SubscriptionLost));
    assert!(!agg.is_open());
    assert_eq!(
        agg.accept(from(Source::Disk, ChangeKind::Added, "x")),
        Err(ZfcpError::SubscriptionLost)
    );
    assert!(!agg.is_open());
}

#[test]
fn empty_feed_is_open_and_silent() {
    let (events, open) = deliver(&vec![]);
    assert!(events.is_empty());
    assert!(open);
}

#[test]
fn named_streams() {
    let streams = zfcp_stream();
    assert_eq!(streams.len(), 2);
    assert_eq!(streams[0].name, "zfcp_disks");
    assert_eq!(streams[0].source, Source::Disk);
    assert_eq!(streams[1].name, "zfcp_controllers");
    assert_eq!(streams[1].source, Source::Controller);
}

#[test]
fn arrivals_copy_exactly() {
    let a = from(Source::Disk, ChangeKind::Removed, "0.0.fc00:0x1:0x2");
    assert_eq!(copy_arrival(&a), a);
    let d = Arrival::Dropped(Source::Controller);
    assert_eq!(copy_arrival(&d), d);
}
