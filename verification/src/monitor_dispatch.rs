//! The monitor dispatch: which monitors are connected, what each one
//! subscribes to, which of them an event is fanned out to, and the
//! three-strikes eviction of monitors whose connection keeps failing.
//!
//! The dispatch receives every broadcastable lifecycle event through one
//! channel, so monitors observe events in a single serialization order; the
//! laws below show that each monitor receives exactly the matching events, in
//! that order.

use vstd::prelude::*;
use crate::uuids::MonitorId;
use crate::monitoring::{category_matches, is_interested_in, MonitoringEventCategory, MonitorMessage, SFUEvent};

verus! {

/// How many consecutive send failures a monitor survives.
pub const MONITOR_ERRORS_BEFORE_CLOSING: u32 = 3;

/// The dispatch's record of one connected monitor.
#[derive(Debug, PartialEq, Eq, Structural, Clone, Copy)]
pub struct MonitorRecord {
    pub id: MonitorId,
    /// What this monitor subscribes to; a fresh connection listens globally.
    pub category: MonitoringEventCategory,
    /// Consecutive send failures; a successful send resets it.
    pub consecutive_send_failures: u32,
}

/// The monitor dispatch state.
pub struct MonitorDispatch {
    /// One record per connected monitor, in connection order.
    pub monitors: Vec<MonitorRecord>,
}

impl MonitorDispatch {
    /// Well-formedness: one record per monitor.
    pub open spec fn wf(self) -> bool {
        forall|i: int, j: int|
            0 <= i < j < self.monitors@.len()
                ==> (#[trigger] self.monitors@[i]).id != (#[trigger] self.monitors@[j]).id
    }

    /// Whether a record for `id` exists.
    pub open spec fn spec_has_monitor(self, id: MonitorId) -> bool {
        exists|i: int| 0 <= i < self.monitors@.len() && (#[trigger] self.monitors@[i]).id == id
    }

    /// A dispatch with no monitors yet.
    pub fn new() -> (r: Self)
        ensures
            r.monitors@.len() == 0,
            r.wf(),
    {
        MonitorDispatch { monitors: Vec::new() }
    }

    /// Whether a record for `id` exists; a caller tests this before
    /// accepting a connection under a freshly minted identifier.
    pub fn has_monitor(&self, id: MonitorId) -> (r: bool)
        ensures
            r == self.spec_has_monitor(id),
    {
        let n = self.monitors.len();
        let mut i: usize = 0;
        while i < n
            invariant
                0 <= i <= n,
                n == self.monitors@.len(),
                forall|j: int| 0 <= j < i ==> (#[trigger] self.monitors@[j]).id != id,
            decreases n - i,
        {
            if self.monitors[i].id.0 == id.0 {
                return true;
            }
            i += 1;
        }
        false
    }

    /// Accepts a monitor connection: the record starts on the global
    /// category with a clean failure count, and the returned event announces
    /// the new peer to all monitors.
    pub fn add_monitor(&mut self, id: MonitorId) -> (evt: SFUEvent)
        requires
            old(self).wf(),
            !old(self).spec_has_monitor(id),
        ensures
            final(self).wf(),
            final(self).monitors@ == old(self).monitors@.push(
                MonitorRecord {
                    id,
                    category: MonitoringEventCategory::Global,
                    consecutive_send_failures: 0,
                },
            ),
            evt == SFUEvent::MonitorAccepted,
    {
        let ghost old_monitors = self.monitors@;
        self.monitors.push(
            MonitorRecord {
                id,
                category: MonitoringEventCategory::Global,
                consecutive_send_failures: 0,
            },
        );
        proof {
            assert forall|i: int, j: int| 0 <= i < j < self.monitors@.len()
                implies (#[trigger] self.monitors@[i]).id != (#[trigger] self.monitors@[j]).id by {
                if j == old_monitors.len() {
                    assert(self.monitors@[i] == old_monitors[i]);
                }
            }
        }
        SFUEvent::MonitorAccepted
    }

    /// Applies a request a monitor sent: a greeting changes nothing, a
    /// category switch retargets that monitor's subscription.
    pub fn apply_monitor_message(&mut self, monitor_id: MonitorId, msg: &MonitorMessage)
        requires
            old(self).wf(),
        ensures
            final(self).wf(),
            msg matches MonitorMessage::Greeting(_) ==> final(self).monitors@ == old(
                self,
            ).monitors@,
            msg matches MonitorMessage::SwitchCategory(category) ==> {
                &&& !old(self).spec_has_monitor(monitor_id) ==> final(self).monitors@ == old(
                    self,
                ).monitors@
                &&& old(self).spec_has_monitor(monitor_id) ==> exists|i: int|
                    {
                        &&& 0 <= i < old(self).monitors@.len()
                        &&& (#[trigger] old(self).monitors@[i]).id == monitor_id
                        &&& final(self).monitors@.len() == old(self).monitors@.len()
                        &&& final(self).monitors@[i].id == monitor_id
                        &&& final(self).monitors@[i].category == category
                        &&& final(self).monitors@[i].consecutive_send_failures == old(
                            self,
                        ).monitors@[i].consecutive_send_failures
                        &&& forall|j: int|
                            0 <= j < old(self).monitors@.len() && j != i
                                ==> #[trigger] final(self).monitors@[j] == old(self).monitors@[j]
                    }
            },
    {
        match msg {
            MonitorMessage::Greeting(_) => {},
            MonitorMessage::SwitchCategory(category) => {
                let n = self.monitors.len();
                let mut i: usize = 0;
                while i < n
                    invariant
                        0 <= i <= n,
                        n == self.monitors@.len(),
                        old(self) == self,
                        self.wf(),
                        *msg == MonitorMessage::SwitchCategory(*category),
                        forall|j: int|
                            0 <= j < i ==> (#[trigger] self.monitors@[j]).id != monitor_id,
                    decreases n - i,
                {
                    if self.monitors[i].id.0 == monitor_id.0 {
                        let mut record = self.monitors.remove(i);
                        record.category = *category;
                        self.monitors.insert(i, record);
                        proof {
                            assert(self.monitors@ =~= old(self).monitors@.update(
                                i as int,
                                record,
                            ));
                            assert(old(self).monitors@[i as int].id == monitor_id);
                            assert(old(self).spec_has_monitor(monitor_id));
                        }
                        return;
                    }
                    i += 1;
                }
            },
        }
    }

    /// The monitors an event is cloned to: those whose subscription matches,
    /// in connection order.
    pub fn targets_for(&self, evt: &SFUEvent) -> (r: Vec<MonitorId>)
        ensures
            r@ == targets_of(self.monitors@, *evt),
    {
        let mut r: Vec<MonitorId> = Vec::new();
        let n = self.monitors.len();
        let mut i: usize = 0;
        while i < n
            invariant
                0 <= i <= n,
                n == self.monitors@.len(),
                r@ =~= targets_of(self.monitors@.take(i as int), *evt),
            decreases n - i,
        {
            let record = &self.monitors[i];
            if is_interested_in(record.category, evt) {
                r.push(record.id);
            }
            proof {
                assert(self.monitors@.take(i + 1int).drop_last() =~= self.monitors@.take(
                    i as int,
                ));
                assert(self.monitors@.take(i + 1int).last() == self.monitors@[i as int]);
            }
            i += 1;
        }
        proof {
            assert(self.monitors@.take(n as int) =~= self.monitors@);
        }
        r
    }

    /// Books the outcome of one send towards `monitor_id`: success wipes the
    /// failure streak, a failure lengthens it, and the third consecutive
    /// failure asks for the monitor's eviction.
    pub fn record_send_result(&mut self, monitor_id: MonitorId, ok: bool) -> (evict: bool)
        requires
            old(self).wf(),
        ensures
            final(self).wf(),
            !old(self).spec_has_monitor(monitor_id) ==> {
                &&& final(self).monitors@ == old(self).monitors@
                &&& !evict
            },
            old(self).spec_has_monitor(monitor_id) ==> exists|i: int|
                {
                    &&& 0 <= i < old(self).monitors@.len()
                    &&& (#[trigger] old(self).monitors@[i]).id == monitor_id
                    &&& final(self).monitors@.len() == old(self).monitors@.len()
                    &&& final(self).monitors@[i].id == monitor_id
                    &&& final(self).monitors@[i].category == old(self).monitors@[i].category
                    &&& final(self).monitors@[i].consecutive_send_failures == if ok {
                        0int
                    } else if old(self).monitors@[i].consecutive_send_failures < u32::MAX {
                        old(self).monitors@[i].consecutive_send_failures + 1
                    } else {
                        old(self).monitors@[i].consecutive_send_failures as int
                    }
                    &&& evict == (final(self).monitors@[i].consecutive_send_failures
                        >= MONITOR_ERRORS_BEFORE_CLOSING)
                    &&& forall|j: int|
                        0 <= j < old(self).monitors@.len() && j != i
                            ==> #[trigger] final(self).monitors@[j] == old(self).monitors@[j]
                },
    {
        let n = self.monitors.len();
        let mut i: usize = 0;
        while i < n
            invariant
                0 <= i <= n,
                n == self.monitors@.len(),
                old(self) == self,
                self.wf(),
                forall|j: int| 0 <= j < i ==> (#[trigger] self.monitors@[j]).id != monitor_id,
            decreases n - i,
        {
            if self.monitors[i].id.0 == monitor_id.0 {
                let mut record = self.monitors.remove(i);
                if ok {
                    record.consecutive_send_failures = 0;
                } else if record.consecutive_send_failures < u32::MAX {
                    record.consecutive_send_failures = record.consecutive_send_failures + 1;
                }
                let evict = record.consecutive_send_failures >= MONITOR_ERRORS_BEFORE_CLOSING;
                self.monitors.insert(i, record);
                proof {
                    assert(self.monitors@ =~= old(self).monitors@.update(i as int, record));
                }
                return evict;
            }
            i += 1;
        }
        false
    }

    /// Drops `monitor_id`'s record: the connection-closed hook.
    pub fn remove_monitor(&mut self, monitor_id: MonitorId)
        requires
            old(self).wf(),
        ensures
            final(self).wf(),
            !final(self).spec_has_monitor(monitor_id),
            !old(self).spec_has_monitor(monitor_id) ==> final(self).monitors@ == old(
                self,
            ).monitors@,
            old(self).spec_has_monitor(monitor_id) ==> exists|i: int|
                {
                    &&& 0 <= i < old(self).monitors@.len()
                    &&& (#[trigger] old(self).monitors@[i]).id == monitor_id
                    &&& final(self).monitors@ == old(self).monitors@.remove(i)
                },
    {
        let n = self.monitors.len();
        let mut i: usize = 0;
        while i < n
            invariant
                0 <= i <= n,
                n == self.monitors@.len(),
                old(self) == self,
                self.wf(),
                forall|j: int| 0 <= j < i ==> (#[trigger] self.monitors@[j]).id != monitor_id,
            decreases n - i,
        {
            if self.monitors[i].id.0 == monitor_id.0 {
                let ghost old_monitors = self.monitors@;
                self.monitors.remove(i);
                proof {
                    assert(forall|k: int|
                        0 <= k < self.monitors@.len() ==> #[trigger] self.monitors@[k] == if k
                            < i {
                            old_monitors[k]
                        } else {
                            old_monitors[k + 1]
                        });
                    assert(!self.spec_has_monitor(monitor_id)) by {
                        if self.spec_has_monitor(monitor_id) {
                            let k = choose|k: int|
                                0 <= k < self.monitors@.len() && (#[trigger] self.monitors@[
                                    k
                                ]).id == monitor_id;
                            if k < i {
                                assert(old_monitors[k].id == monitor_id);
                            } else {
                                assert(old_monitors[k + 1].id == monitor_id);
                                assert(old_monitors[i as int].id == monitor_id);
                            }
                        }
                    }
                }
                return;
            }
            i += 1;
        }
    }
}

/// The monitors among `monitors` whose subscription matches `evt`, in order.
pub open spec fn targets_of(monitors: Seq<MonitorRecord>, evt: SFUEvent) -> Seq<MonitorId>
    decreases monitors.len(),
{
    if monitors.len() == 0 {
        Seq::empty()
    } else {
        targets_of(monitors.drop_last(), evt) + if category_matches(
            monitors.last().category,
            evt,
        ) {
            seq![monitors.last().id]
        } else {
            Seq::empty()
        }
    }
}

/// What one monitor receives from a feed of events, in feed order: exactly
/// the events its subscription matches. The dispatch serializes all events
/// through one channel, so this is also the order on the wire.
pub open spec fn deliveries(feed: Seq<SFUEvent>, category: MonitoringEventCategory) -> Seq<
    SFUEvent,
>
    decreases feed.len(),
{
    if feed.len() == 0 {
        Seq::empty()
    } else {
        deliveries(feed.drop_last(), category) + if category_matches(category, feed.last()) {
            seq![feed.last()]
        } else {
            Seq::empty()
        }
    }
}

/// Law (no silent drop, order kept): extending the feed by a matching event
/// extends each matching monitor's deliveries by exactly that event, at the
/// end; an event that does not match leaves the deliveries untouched.
pub proof fn lemma_deliveries_step(
    feed: Seq<SFUEvent>,
    category: MonitoringEventCategory,
    evt: SFUEvent,
)
    ensures
        category_matches(category, evt) ==> deliveries(feed.push(evt), category) == deliveries(
            feed,
            category,
        ).push(evt),
        !category_matches(category, evt) ==> deliveries(feed.push(evt), category) == deliveries(
            feed,
            category,
        ),
{
    assert(feed.push(evt).drop_last() =~= feed);
    if category_matches(category, evt) {
        assert(deliveries(feed, category) + seq![evt] =~= deliveries(feed, category).push(evt));
    } else {
        assert(deliveries(feed, category) + Seq::<SFUEvent>::empty() =~= deliveries(
            feed,
            category,
        ));
    }
}

/// Law (serialization order): what a monitor has received after any prefix of
/// the feed is a prefix of what it receives from the whole feed — deliveries
/// never reorder events.
pub proof fn lemma_deliveries_prefix(
    feed: Seq<SFUEvent>,
    category: MonitoringEventCategory,
    k: int,
)
    requires
        0 <= k <= feed.len(),
    ensures
        deliveries(feed.take(k), category).is_prefix_of(deliveries(feed, category)),
    decreases feed.len() - k,
{
    if k == feed.len() {
        assert(feed.take(k) =~= feed);
    } else {
        lemma_deliveries_prefix(feed, category, k + 1);
        assert(feed.take(k + 1).drop_last() =~= feed.take(k));
        let d = deliveries(feed.take(k), category);
        let d1 = deliveries(feed.take(k + 1), category);
        assert(d.is_prefix_of(d1));
    }
}

/// Law (global subscription sees no room traffic): a monitor on the global
/// category is never delivered a participant-entered or participant-left
/// event, whatever the feed; in particular it receives a room's opening
/// before any participant event of that room, because it receives no
/// participant events at all.
pub proof fn lemma_global_deliveries_lifecycle_only(feed: Seq<SFUEvent>)
    ensures
        forall|j: int|
            0 <= j < deliveries(feed, MonitoringEventCategory::Global).len() ==> {
                &&& !((#[trigger] deliveries(feed, MonitoringEventCategory::Global)[j])
                    matches SFUEvent::ParticipantEntered { .. })
                &&& !(deliveries(feed, MonitoringEventCategory::Global)[j]
                    matches SFUEvent::ParticipantLeft { .. })
            },
    decreases feed.len(),
{
    if feed.len() > 0 {
        lemma_global_deliveries_lifecycle_only(feed.drop_last());
    }
}

/// Law (room subscription sees only its room): a monitor subscribed to one
/// room is delivered exactly the participant events of that room, never
/// another room's and never global lifecycle events.
pub proof fn lemma_room_deliveries_own_room_only(feed: Seq<SFUEvent>, room: crate::uuids::RoomId)
    ensures
        forall|j: int|
            0 <= j < deliveries(feed, MonitoringEventCategory::Room(room)).len()
                ==> match #[trigger] deliveries(feed, MonitoringEventCategory::Room(room))[j] {
                    SFUEvent::ParticipantEntered { room_id, .. } => room_id == room,
                    SFUEvent::ParticipantLeft { room_id, .. } => room_id == room,
                    _ => false,
                },
    decreases feed.len(),
{
    if feed.len() > 0 {
        lemma_room_deliveries_own_room_only(feed.drop_last(), room);
    }
}

} // verus!
