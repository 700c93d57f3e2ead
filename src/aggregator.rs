//! The change-notification aggregator: merges what the controller source and
//! the disk source report into one stream of events, each labelled with the
//! source it came from.
//!
//! The aggregator is fed arrivals one at a time, in the order in which they
//! reached it; whoever listens to the two sources feeds it. Each source's events
//! keep their order, and the stream ends, for good, when a source is dropped.
use vstd::prelude::*;

use crate::error::ZfcpError;

verus! {

/// A notification source.
#[derive(Clone, Copy, Debug, PartialEq, Eq, Structural)]
pub enum Source {
    /// Appearance and removal of controllers.
    Controller,
    /// Appearance, removal and state changes of disks.
    Disk,
}

/// What happened to a device.
#[derive(Clone, Copy, Debug, PartialEq, Eq, Structural)]
pub enum ChangeKind {
    Added,
    Removed,
    Changed,
}

/// A change that a source reports, about the device named `device`.
#[derive(Clone, Debug, PartialEq, Eq)]
pub struct Change {
    pub kind: ChangeKind,
    pub device: String,
}

/// What reaches the aggregator: a change from one source, or the news that a
/// source's channel was dropped.
#[derive(Clone, Debug, PartialEq, Eq)]
pub enum Arrival {
    Notified(Source, Change),
    Dropped(Source),
}

/// An event of the merged stream.
#[derive(Clone, Debug, PartialEq, Eq)]
pub struct Event {
    pub source: Source,
    pub change: Change,
}

/// A stream that a client may subscribe to, by name.
#[derive(Clone, Debug, PartialEq, Eq)]
pub struct NamedStream {
    pub name: String,
    pub source: Source,
}

/// The label that routes an event of source `s`.
pub open spec fn label_of(s: Source) -> Seq<char> {
    match s {
        Source::Controller => "controller"@,
        Source::Disk => "disk"@,
    }
}

/// The event that a notification becomes.
pub open spec fn event_of(a: Arrival) -> Event
    recommends
        a is Notified,
{
    Event { source: a->Notified_0, change: a->Notified_1 }
}

/// No source has been dropped in `arr`.
pub open spec fn stream_open(arr: Seq<Arrival>) -> bool {
    forall|i: int| 0 <= i < arr.len() ==> (#[trigger] arr[i]) is Notified
}

/// The events that the arrivals `arr` produce, in order: one for each
/// notification until the first drop, none after it.
pub open spec fn merged(arr: Seq<Arrival>) -> Seq<Event>
    decreases arr.len(),
{
    if arr.len() == 0 {
        Seq::empty()
    } else {
        let prev = arr.drop_last();
        if stream_open(arr) {
            merged(prev).push(event_of(arr.last()))
        } else {
            merged(prev)
        }
    }
}

/// The changes carried by the events of `es` that came from source `s`, in order.
pub open spec fn event_changes(es: Seq<Event>, s: Source) -> Seq<Change>
    decreases es.len(),
{
    if es.len() == 0 {
        Seq::empty()
    } else if es.last().source == s {
        event_changes(es.drop_last(), s).push(es.last().change)
    } else {
        event_changes(es.drop_last(), s)
    }
}

/// The changes that source `s` reported in `arr`, in order.
pub open spec fn notified_changes(arr: Seq<Arrival>, s: Source) -> Seq<Change>
    decreases arr.len(),
{
    if arr.len() == 0 {
        Seq::empty()
    } else if arr.last() is Notified && arr.last()->Notified_0 == s {
        notified_changes(arr.drop_last(), s).push(arr.last()->Notified_1)
    } else {
        notified_changes(arr.drop_last(), s)
    }
}

/// While no source is dropped, every arrival yields exactly one event.
pub proof fn lemma_open_stream_length(arr: Seq<Arrival>)
    requires
        stream_open(arr),
    ensures
        merged(arr).len() == arr.len(),
    decreases arr.len(),
{
    if arr.len() > 0 {
        let prev = arr.drop_last();
        assert(forall|i: int| 0 <= i < prev.len() ==> (#[trigger] prev[i]) == arr[i]);
        lemma_open_stream_length(prev);
    }
}

/// Every event of the merged stream is the notification that arrived at the
/// same position, under the source that sent it: an event from the controller
/// source is labelled "controller", one from the disk source "disk".
pub proof fn lemma_events_labelled(arr: Seq<Arrival>)
    ensures
        merged(arr).len() <= arr.len(),
        forall|k: int| 0 <= k < merged(arr).len() ==> {
            &&& (#[trigger] arr[k]) is Notified
            &&& merged(arr)[k] == event_of(arr[k])
            &&& merged(arr)[k].source == arr[k]->Notified_0
            &&& label_of(merged(arr)[k].source) == label_of(arr[k]->Notified_0)
        },
    decreases arr.len(),
{
    if arr.len() > 0 {
        let prev = arr.drop_last();
        assert(forall|i: int| 0 <= i < prev.len() ==> (#[trigger] prev[i]) == arr[i]);
        lemma_events_labelled(prev);
        if stream_open(arr) {
            assert(stream_open(prev));
            lemma_open_stream_length(prev);
        }
        assert forall|k: int| 0 <= k < merged(arr).len() implies (#[trigger] arr[k]) is Notified
            && merged(arr)[k] == event_of(arr[k]) by {
            if k < merged(prev).len() {
                assert(prev[k] == arr[k]);
                assert(merged(arr)[k] == merged(prev)[k]);
            }
        }
    }
}

/// With no source dropped, N notifications from the controller source and M
/// from the disk source, in any interleaving, yield exactly N + M events, and
/// the events of each source carry its changes in the order they arrived.
pub proof fn lemma_each_source_delivered_in_order(arr: Seq<Arrival>)
    requires
        stream_open(arr),
    ensures
        merged(arr).len() == notified_changes(arr, Source::Controller).len() + notified_changes(arr, Source::Disk).len(),
        event_changes(merged(arr), Source::Controller) == notified_changes(arr, Source::Controller),
        event_changes(merged(arr), Source::Disk) == notified_changes(arr, Source::Disk),
    decreases arr.len(),
{
    if arr.len() > 0 {
        let prev = arr.drop_last();
        assert(forall|i: int| 0 <= i < prev.len() ==> (#[trigger] prev[i]) == arr[i]);
        assert(stream_open(prev));
        lemma_each_source_delivered_in_order(prev);
        let e = event_of(arr.last());
        assert(merged(arr).drop_last() =~= merged(prev));
        assert(merged(arr).last() == e);
    }
}

impl Event {
    /// The label of the source this event came from.
    pub fn label(&self) -> (r: &'static str)
        ensures
            r@ == label_of(self.source),
    {
        match self.source {
            Source::Controller => "controller",
            Source::Disk => "disk",
        }
    }
}

/// The two streams offered to clients: disk changes as `zfcp_disks`, controller
/// changes as `zfcp_controllers`.
pub fn zfcp_stream() -> (r: Vec<NamedStream>)
    ensures
        r@.len() == 2,
        r@[0].name@ == "zfcp_disks"@,
        r@[0].source == Source::Disk,
        r@[1].name@ == "zfcp_controllers"@,
        r@[1].source == Source::Controller,
{
    let mut r: Vec<NamedStream> = Vec::new();
    r.push(NamedStream { name: String::from_str("zfcp_disks"), source: Source::Disk });
    r.push(NamedStream { name: String::from_str("zfcp_controllers"), source: Source::Controller });
    r
}

/// The merging state of one subscription.
pub struct Aggregator {
    /// Whether the stream still runs.
    pub open: bool,
    /// Every arrival fed so far.
    pub history: Ghost<Seq<Arrival>>,
}

impl Aggregator {
    pub open spec fn wf(&self) -> bool {
        self.open == stream_open(self.history@)
    }

    /// A fresh subscription, with nothing fed yet.
    pub fn new() -> (r: Self)
        ensures
            r.wf(),
            r.history@ == Seq::<Arrival>::empty(),
    {
        Aggregator { open: true, history: Ghost(Seq::empty()) }
    }

    /// Whether the stream still runs.
    pub fn is_open(&self) -> (r: bool)
        requires
            self.wf(),
        ensures
            r == stream_open(self.history@),
    {
        self.open
    }

    /// Takes one arrival. A notification on a running stream becomes the event
    /// returned; a dropped source ends the stream, and from then on every
    /// arrival is answered with `SubscriptionLost`.
    pub fn accept(&mut self, a: Arrival) -> (r: Result<Event, ZfcpError>)
        requires
            old(self).wf(),
        ensures
            final(self).wf(),
            final(self).history@ == old(self).history@.push(a),
            stream_open(final(self).history@) ==> r == Ok::<Event, ZfcpError>(event_of(a))
                && merged(final(self).history@) == merged(old(self).history@).push(event_of(a)),
            !stream_open(final(self).history@) ==> r == Err::<Event, ZfcpError>(ZfcpError::SubscriptionLost)
                && merged(final(self).history@) == merged(old(self).history@),
    {
        let ghost h = self.history@.push(a);
        assert(h.drop_last() =~= self.history@);
        self.history = Ghost(h);
        if !self.open {
            assert(!stream_open(h)) by {
                let i = choose|i: int| 0 <= i < h.len() - 1 && !(#[trigger] h.drop_last()[i] is Notified);
                assert(h[i] == h.drop_last()[i]);
            }
            return Err(ZfcpError::SubscriptionLost);
        }
        match a {
            Arrival::Dropped(_) => {
                assert(!(h[h.len() - 1] is Notified));
                self.open = false;
                Err(ZfcpError::SubscriptionLost)
            },
            Arrival::Notified(s, c) => {
                assert(stream_open(h)) by {
                    assert forall|i: int| 0 <= i < h.len() implies (#[trigger] h[i]) is Notified by {
                        if i < h.len() - 1 {
                            assert(h[i] == h.drop_last()[i]);
                        }
                    }
                }
                Ok(Event { source: s, change: c })
            },
        }
    }
}

/// A copy of `a`.
pub fn copy_arrival(a: &Arrival) -> (r: Arrival)
    ensures
        r == *a,
{
    match a {
        Arrival::Notified(s, c) => Arrival::Notified(*s, Change { kind: c.kind, device: c.device.clone() }),
        Arrival::Dropped(s) => Arrival::Dropped(*s),
    }
}

/// Feeds `arrivals` in order to a fresh subscription: the events it delivers,
/// and whether the stream still runs at the end.
pub fn deliver(arrivals: &Vec<Arrival>) -> (r: (Vec<Event>, bool))
    ensures
        r.0@ == merged(arrivals@),
        r.1 == stream_open(arrivals@),
{
    let mut agg = Aggregator::new();
    let mut out: Vec<Event> = Vec::new();
    let mut i: usize = 0;
    assert(arrivals@.take(0) =~= Seq::<Arrival>::empty());
    while i < arrivals.len()
        invariant
            i <= arrivals.len(),
            agg.wf(),
            agg.history@ == arrivals@.take(i as int),
            out@ == merged(agg.history@),
        decreases arrivals.len() - i,
    {
        match agg.accept(copy_arrival(&arrivals[i])) {
            Ok(e) => {
                out.push(e);
            },
            Err(_) => {},
        }
        i += 1;
        assert(agg.history@ =~= arrivals@.take(i as int));
    }
    assert(arrivals@.take(arrivals.len() as int) =~= arrivals@);
    (out, agg.is_open())
}

} // verus!
