//! The room model: which participants have published which producers, and the
//! producer-add / producer-remove notifications a room raises.
//!
//! A room's entries are kept in the order the room observed the operations,
//! so notifications fan out in that order. A ghost history of every
//! notification raised so far backs the counting laws: a producer is removed
//! exactly once for each time it was added.

use vstd::prelude::*;
use crate::uuids::{ParticipantId, ProducerId, RoomId};
use crate::monitoring::SFUEvent;

verus! {

/// A notification a room raises towards its subscribers.
#[derive(Debug, PartialEq, Eq, Structural, Clone, Copy)]
pub enum RoomNotification {
    ProducerAdd { participant_id: ParticipantId, producer_id: ProducerId },
    ProducerRemove { participant_id: ParticipantId, producer_id: ProducerId },
}

impl RoomNotification {
    /// Whether this notification adds producer `p`.
    pub open spec fn is_add_of(self, p: ProducerId) -> bool {
        self matches RoomNotification::ProducerAdd { producer_id, .. } && producer_id == p
    }

    /// Whether this notification removes producer `p`.
    pub open spec fn is_remove_of(self, p: ProducerId) -> bool {
        self matches RoomNotification::ProducerRemove { producer_id, .. } && producer_id == p
    }
}

/// One participant's entry: the producers they published, in publication
/// order.
pub struct RoomEntry {
    pub participant_id: ParticipantId,
    pub producers: Vec<ProducerId>,
}

/// The coordination state of one room.
pub struct RoomState {
    pub id: RoomId,
    /// One entry per participant that has published, in first-publication
    /// order.
    pub clients: Vec<RoomEntry>,
    /// Every notification raised so far, oldest first.
    pub history: Ghost<Seq<RoomNotification>>,
}

/// How many `ProducerAdd` notifications for `p` the history holds.
pub open spec fn adds_for(history: Seq<RoomNotification>, p: ProducerId) -> int
    decreases history.len(),
{
    if history.len() == 0 {
        0
    } else {
        adds_for(history.drop_last(), p) + if history.last().is_add_of(p) { 1int } else { 0int }
    }
}

/// How many `ProducerRemove` notifications for `p` the history holds.
pub open spec fn removes_for(history: Seq<RoomNotification>, p: ProducerId) -> int
    decreases history.len(),
{
    if history.len() == 0 {
        0
    } else {
        removes_for(history.drop_last(), p)
            + if history.last().is_remove_of(p) { 1int } else { 0int }
    }
}

/// How many entries currently publish producer `p`; in a well-formed room
/// this is zero or one.
pub open spec fn entries_with(entries: Seq<RoomEntry>, p: ProducerId) -> int
    decreases entries.len(),
{
    if entries.len() == 0 {
        0
    } else {
        entries_with(entries.drop_last(), p)
            + if entries.last().producers@.contains(p) { 1int } else { 0int }
    }
}

/// How often `p` occurs among `producers`.
pub open spec fn occurrences_of(producers: Seq<ProducerId>, p: ProducerId) -> int
    decreases producers.len(),
{
    if producers.len() == 0 {
        0
    } else {
        occurrences_of(producers.drop_last(), p)
            + if producers.last() == p { 1int } else { 0int }
    }
}

/// Appending a notification raises the add count for `p` exactly when it is
/// an add of `p`, and likewise for removes.
pub proof fn lemma_counts_push(h: Seq<RoomNotification>, n: RoomNotification, p: ProducerId)
    ensures
        adds_for(h.push(n), p) == adds_for(h, p) + if n.is_add_of(p) { 1int } else { 0int },
        removes_for(h.push(n), p) == removes_for(h, p)
            + if n.is_remove_of(p) { 1int } else { 0int },
{
    assert(h.push(n).drop_last() =~= h);
}

/// Add and remove counts distribute over concatenation of histories.
pub proof fn lemma_counts_concat(h: Seq<RoomNotification>, t: Seq<RoomNotification>, p: ProducerId)
    ensures
        adds_for(h + t, p) == adds_for(h, p) + adds_for(t, p),
        removes_for(h + t, p) == removes_for(h, p) + removes_for(t, p),
    decreases t.len(),
{
    if t.len() == 0 {
        assert(h + t =~= h);
    } else {
        lemma_counts_concat(h, t.drop_last(), p);
        assert((h + t).drop_last() =~= h + t.drop_last());
        assert((h + t).last() == t.last());
    }
}

/// Changing only the entry at `i` shifts the containment count by the two
/// entries' difference at `i`.
pub proof fn lemma_entries_with_update(
    s: Seq<RoomEntry>,
    t: Seq<RoomEntry>,
    i: int,
    p: ProducerId,
)
    requires
        s.len() == t.len(),
        0 <= i < s.len(),
        forall|j: int| 0 <= j < s.len() && j != i ==> #[trigger] s[j] == t[j],
    ensures
        entries_with(t, p) == entries_with(s, p)
            - (if s[i].producers@.contains(p) { 1int } else { 0int })
            + (if t[i].producers@.contains(p) { 1int } else { 0int }),
    decreases s.len(),
{
    if i == s.len() - 1 {
        assert(s.drop_last() =~= t.drop_last());
    } else {
        lemma_entries_with_update(s.drop_last(), t.drop_last(), i, p);
        assert(s.drop_last()[i] == s[i]);
        assert(t.drop_last()[i] == t[i]);
        assert(s.last() == t.last());
    }
}

/// Appending an entry shifts the containment count by that entry alone.
pub proof fn lemma_entries_with_push(s: Seq<RoomEntry>, e: RoomEntry, p: ProducerId)
    ensures
        entries_with(s.push(e), p) == entries_with(s, p)
            + if e.producers@.contains(p) { 1int } else { 0int },
{
    assert(s.push(e).drop_last() =~= s);
}

/// Removing the entry at `i` lowers the containment count by that entry
/// alone.
pub proof fn lemma_entries_with_remove(s: Seq<RoomEntry>, i: int, p: ProducerId)
    requires
        0 <= i < s.len(),
    ensures
        entries_with(s.remove(i), p) == entries_with(s, p)
            - if s[i].producers@.contains(p) { 1int } else { 0int },
    decreases s.len(),
{
    if i == s.len() - 1 {
        assert(s.remove(i) =~= s.drop_last());
    } else {
        lemma_entries_with_remove(s.drop_last(), i, p);
        assert(s.remove(i).drop_last() =~= s.drop_last().remove(i));
        assert(s.remove(i).last() == s.last());
    }
}

/// When no entry publishes `p`, the containment count is zero.
pub proof fn lemma_entries_with_zero(s: Seq<RoomEntry>, p: ProducerId)
    requires
        forall|i: int| 0 <= i < s.len() ==> !(#[trigger] s[i].producers@.contains(p)),
    ensures
        entries_with(s, p) == 0,
    decreases s.len(),
{
    if s.len() > 0 {
        lemma_entries_with_zero(s.drop_last(), p);
    }
}

/// In a duplicate-free producer list, `p` occurs once when present and never
/// otherwise.
pub proof fn lemma_occurrences_no_duplicates(s: Seq<ProducerId>, p: ProducerId)
    requires
        s.no_duplicates(),
    ensures
        occurrences_of(s, p) == if s.contains(p) { 1int } else { 0int },
    decreases s.len(),
{
    if s.len() > 0 {
        assert(s.drop_last().no_duplicates());
        lemma_occurrences_no_duplicates(s.drop_last(), p);
        if s.contains(p) {
            let k = choose|k: int| 0 <= k < s.len() && s[k] == p;
            if k < s.len() - 1 {
                assert(s.drop_last()[k] == p);
                assert(s.drop_last().contains(p));
            }
        } else {
            assert(!s.drop_last().contains(p)) by {
                if s.drop_last().contains(p) {
                    let k = choose|k: int| 0 <= k < s.len() - 1 && s.drop_last()[k] == p;
                    assert(s[k] == p);
                }
            }
        }
    }
}

impl RoomState {
    /// The participant ids holding entries, in entry order.
    pub open spec fn participant_ids(self) -> Seq<ParticipantId> {
        self.clients@.map_values(|e: RoomEntry| e.participant_id)
    }

    /// Whether some entry belongs to `participant_id`.
    pub open spec fn has_participant(self, participant_id: ParticipantId) -> bool {
        exists|i: int|
            0 <= i < self.clients@.len()
                && (#[trigger] self.clients@[i]).participant_id == participant_id
    }

    /// Whether producer `p` is currently published under some entry.
    pub open spec fn has_producer(self, p: ProducerId) -> bool {
        exists|i: int|
            0 <= i < self.clients@.len() && #[trigger] self.clients@[i].producers@.contains(p)
    }

    /// Well-formedness: participants hold at most one entry each, a producer
    /// appears at most once in one entry, a producer never appears under two
    /// participants, and the notification history accounts for exactly the
    /// producers currently present.
    pub open spec fn wf(self) -> bool {
        &&& forall|i: int, j: int|
            0 <= i < j < self.clients@.len()
                ==> (#[trigger] self.clients@[i]).participant_id
                    != (#[trigger] self.clients@[j]).participant_id
        &&& forall|i: int|
            0 <= i < self.clients@.len()
                ==> (#[trigger] self.clients@[i].producers@).no_duplicates()
        &&& forall|i: int, j: int, p: ProducerId|
            0 <= i < self.clients@.len() && 0 <= j < self.clients@.len() && i != j
                && #[trigger] self.clients@[i].producers@.contains(p)
                ==> !(#[trigger] self.clients@[j].producers@.contains(p))
        &&& forall|p: ProducerId|
            #[trigger] adds_for(self.history@, p)
                == removes_for(self.history@, p) + entries_with(self.clients@, p)
    }

    /// The point-in-time `(participant, producer)` pairs, entry by entry.
    pub open spec fn all_producer_pairs(self) -> Seq<(ParticipantId, ProducerId)> {
        pairs_of(self.clients@)
    }

    /// Builds the room for a given identifier; the returned event announces
    /// the opening to the monitors.
    pub fn new_with_id(id: RoomId) -> (r: (RoomState, SFUEvent))
        ensures
            r.0.id == id,
            r.0.clients@.len() == 0,
            r.0.history@.len() == 0,
            r.0.wf(),
            r.1 == (SFUEvent::RoomOpened { id }),
    {
        let room = RoomState { id, clients: Vec::new(), history: Ghost(Seq::empty()) };
        (room, SFUEvent::RoomOpened { id })
    }

    /// Whether producer `p` is already published in the room; a caller tests
    /// this before publishing a handle.
    pub fn contains_producer(&self, p: ProducerId) -> (r: bool)
        ensures
            r == self.has_producer(p),
    {
        let n = self.clients.len();
        let mut i: usize = 0;
        while i < n
            invariant
                0 <= i <= n,
                n == self.clients@.len(),
                forall|j: int| 0 <= j < i ==> !(#[trigger] self.clients@[j].producers@.contains(p)),
            decreases n - i,
        {
            let entry = &self.clients[i];
            let m = entry.producers.len();
            let mut k: usize = 0;
            while k < m
                invariant
                    0 <= k <= m,
                    0 <= i < n,
                    n == self.clients@.len(),
                    m == self.clients@[i as int].producers@.len(),
                    entry == self.clients@[i as int],
                    forall|j: int| 0 <= j < k ==> entry.producers@[j] != p,
                decreases m - k,
            {
                if entry.producers[k].0 == p.0 {
                    proof {
                        assert(self.clients@[i as int].producers@.contains(p)) by {
                            assert(self.clients@[i as int].producers@[k as int] == p);
                        }
                    }
                    return true;
                }
                k += 1;
            }
            proof {
                assert(!self.clients@[i as int].producers@.contains(p)) by {
                    if self.clients@[i as int].producers@.contains(p) {
                        let w = choose|w: int|
                            0 <= w < m && self.clients@[i as int].producers@[w] == p;
                        assert(entry.producers@[w] == p);
                    }
                }
            }
            i += 1;
        }
        false
    }

    /// Appends `producer_id` to `participant_id`'s entry, creating the entry if
    /// the participant has none yet, and raises exactly one producer-add
    /// notification for it.
    ///
    /// A producer handle is created fresh by the media worker, so it can never
    /// already be published in the room.
    pub fn add_producer(
        &mut self,
        participant_id: ParticipantId,
        producer_id: ProducerId,
    ) -> (note: RoomNotification)
        requires
            old(self).wf(),
            !old(self).has_producer(producer_id),
        ensures
            final(self).wf(),
            final(self).id == old(self).id,
            note == (RoomNotification::ProducerAdd { participant_id, producer_id }),
            final(self).history@ == old(self).history@.push(note),
            final(self).has_producer(producer_id),
            old(self).has_participant(participant_id) ==> {
                &&& final(self).clients@.len() == old(self).clients@.len()
                &&& exists|i: int|
                    {
                        &&& 0 <= i < old(self).clients@.len()
                        &&& (#[trigger] old(self).clients@[i]).participant_id == participant_id
                        &&& final(self).clients@[i].participant_id == participant_id
                        &&& final(self).clients@[i].producers@
                            == old(self).clients@[i].producers@.push(producer_id)
                        &&& forall|j: int|
                            0 <= j < old(self).clients@.len() && j != i
                                ==> #[trigger] final(self).clients@[j] == old(self).clients@[j]
                    }
            },
            !old(self).has_participant(participant_id) ==> {
                &&& final(self).clients@.len() == old(self).clients@.len() + 1
                &&& forall|j: int|
                    0 <= j < old(self).clients@.len()
                        ==> #[trigger] final(self).clients@[j] == old(self).clients@[j]
                &&& final(self).clients@.last().participant_id == participant_id
                &&& final(self).clients@.last().producers@ =~= seq![producer_id]
            },
    {
        let ghost old_self = *self;
        let note = RoomNotification::ProducerAdd { participant_id, producer_id };
        let n = self.clients.len();
        let found = find_entry(&self.clients, participant_id);
        proof {
            if found is None {
                assert(!old_self.has_participant(participant_id));
            }
        }
        if let Some(i) = found {
            // The participant already has an entry: extend it in place.
            let mut entry = self.clients.remove(i);
            let ghost old_entry = entry;
            proof {
                assert(!old_entry.producers@.contains(producer_id)) by {
                    assert(old_self.clients@[i as int].producers@ == old_entry.producers@);
                }
            }
            entry.producers.push(producer_id);
            self.clients.insert(i, entry);
            self.history = Ghost(self.history@.push(note));
            proof {
                let oc = old_self.clients@;
                let nc = self.clients@;
                assert(nc =~= oc.remove(i as int).insert(i as int, entry));
                assert(nc.len() == oc.len());
                assert(forall|j: int| 0 <= j < oc.len() && j != i ==> #[trigger] nc[j] == oc[j]);
                assert(nc[i as int].producers@ == oc[i as int].producers@.push(producer_id));
                // Entry order and the other entries are untouched, so the
                // participant-distinctness and disjointness clauses carry over.
                assert(nc[i as int].producers@.no_duplicates()) by {
                    let s = oc[i as int].producers@;
                    assert(forall|k: int|
                        0 <= k < s.len() ==> #[trigger] s.push(producer_id)[k] == s[k]);
                    assert(s.push(producer_id).last() == producer_id);
                }
                assert forall|j: int, k: int, p: ProducerId|
                    0 <= j < nc.len() && 0 <= k < nc.len() && j != k
                        && #[trigger] nc[j].producers@.contains(p)
                        implies !(#[trigger] nc[k].producers@.contains(p)) by {
                    if j == i {
                        if nc[j].producers@.contains(p) {
                            let s = oc[i as int].producers@;
                            let w = choose|w: int|
                                0 <= w < s.push(producer_id).len() && s.push(producer_id)[w] == p;
                            if w < s.len() {
                                assert(s.contains(p));
                            } else {
                                assert(p == producer_id);
                                assert(!oc[k].producers@.contains(p));
                            }
                        }
                    } else if k == i {
                        if nc[k].producers@.contains(p) {
                            let s = oc[i as int].producers@;
                            let w = choose|w: int|
                                0 <= w < s.push(producer_id).len() && s.push(producer_id)[w] == p;
                            if w < s.len() {
                                assert(s.contains(p));
                            } else {
                                assert(p == producer_id);
                                assert(!oc[j].producers@.contains(p));
                            }
                        }
                    }
                }
                assert forall|p: ProducerId| #[trigger] adds_for(self.history@, p)
                    == removes_for(self.history@, p) + entries_with(nc, p) by {
                    lemma_counts_push(old_self.history@, note, p);
                    lemma_entries_with_update(oc, nc, i as int, p);
                    if p == producer_id {
                        assert(!oc[i as int].producers@.contains(p));
                        assert(nc[i as int].producers@.contains(p)) by {
                            assert(nc[i as int].producers@.last() == producer_id);
                        }
                    } else {
                        assert(nc[i as int].producers@.contains(p) == oc[i as int]
                            .producers@
                            .contains(p)) by {
                            let s = oc[i as int].producers@;
                            if s.push(producer_id).contains(p) {
                                let w = choose|w: int|
                                    0 <= w < s.push(producer_id).len() && s.push(producer_id)[w]
                                        == p;
                                assert(w < s.len());
                                assert(s.contains(p));
                            }
                            if s.contains(p) {
                                let w = choose|w: int| 0 <= w < s.len() && s[w] == p;
                                assert(s.push(producer_id)[w] == p);
                            }
                        }
                    }
                }
                assert(self.has_producer(producer_id)) by {
                    assert(self.clients@[i as int].producers@.last() == producer_id);
                    assert(self.clients@[i as int].producers@.contains(producer_id));
                }
                assert(old_self.has_participant(participant_id));
            }
            note
        } else {
            // First publication by this participant: open a fresh entry.
            let mut producers = Vec::new();
            producers.push(producer_id);
            let entry = RoomEntry { participant_id, producers };
            self.clients.push(entry);
            self.history = Ghost(self.history@.push(note));
            proof {
                let oc = old_self.clients@;
                let nc = self.clients@;
                assert(nc =~= oc.push(entry));
                assert(entry.producers@ =~= seq![producer_id]);
                assert(entry.producers@.no_duplicates());
                assert forall|j: int, k: int, p: ProducerId|
                    0 <= j < nc.len() && 0 <= k < nc.len() && j != k
                        && #[trigger] nc[j].producers@.contains(p)
                        implies !(#[trigger] nc[k].producers@.contains(p)) by {
                    if j == oc.len() {
                        assert(nc[j].producers@[0] == producer_id);
                        if nc[j].producers@.contains(p) {
                            assert(p == producer_id);
                            assert(!oc[k].producers@.contains(p));
                        }
                    } else if k == oc.len() {
                        if nc[k].producers@.contains(p) {
                            assert(p == producer_id);
                            assert(!oc[j].producers@.contains(p));
                        }
                    }
                }
                assert forall|p: ProducerId| #[trigger] adds_for(self.history@, p)
                    == removes_for(self.history@, p) + entries_with(nc, p) by {
                    lemma_counts_push(old_self.history@, note, p);
                    lemma_entries_with_push(oc, entry, p);
                    if p == producer_id {
                        assert(entry.producers@[0] == p);
                        assert(entry.producers@.contains(p));
                    } else {
                        if entry.producers@.contains(p) {
                            assert(entry.producers@[0] == p);
                            assert(false);
                        }
                    }
                }
                assert(self.has_producer(producer_id)) by {
                    assert(self.clients@[oc.len() as int].producers@[0] == producer_id);
                    assert(self.clients@[oc.len() as int].producers@.contains(producer_id));
                }
            }
            note
        }
    }

    /// Removes `participant_id`'s entry and raises one producer-remove
    /// notification for each producer they had published, in publication order.
    /// A participant without an entry leaves the room unchanged.
    pub fn remove_participant(
        &mut self,
        participant_id: &ParticipantId,
    ) -> (notes: Vec<RoomNotification>)
        requires
            old(self).wf(),
        ensures
            final(self).wf(),
            final(self).id == old(self).id,
            !final(self).has_participant(*participant_id),
            final(self).history@ == old(self).history@ + notes@,
            old(self).has_participant(*participant_id) ==> exists|i: int|
                {
                    &&& 0 <= i < old(self).clients@.len()
                    &&& (#[trigger] old(self).clients@[i]).participant_id == *participant_id
                    &&& final(self).clients@ == old(self).clients@.remove(i)
                    &&& notes@ == old(self).clients@[i].producers@.map_values(
                        |p: ProducerId| RoomNotification::ProducerRemove {
                            participant_id: *participant_id,
                            producer_id: p,
                        },
                    )
                },
            !old(self).has_participant(*participant_id) ==> {
                &&& final(self).clients@ == old(self).clients@
                &&& notes@.len() == 0
            },
    {
        let ghost old_self = *self;
        let found = find_entry(&self.clients, *participant_id);
        proof {
            if found is None {
                assert(!old_self.has_participant(*participant_id));
            }
        }
        match found {
            None => {
                proof {
                    assert(self.history@ + Seq::<RoomNotification>::empty() =~= self.history@);
                }
                Vec::new()
            },
            Some(i) => {
                let entry = self.clients.remove(i);
                let ghost mapper = |p: ProducerId| RoomNotification::ProducerRemove {
                    participant_id: *participant_id,
                    producer_id: p,
                };
                let mut notes: Vec<RoomNotification> = Vec::new();
                let m = entry.producers.len();
                let mut k: usize = 0;
                while k < m
                    invariant
                        0 <= k <= m,
                        m == entry.producers@.len(),
                        notes@ =~= entry.producers@.take(k as int).map_values(mapper),
                        mapper == (|p: ProducerId| RoomNotification::ProducerRemove {
                            participant_id: *participant_id,
                            producer_id: p,
                        }),
                    decreases m - k,
                {
                    notes.push(RoomNotification::ProducerRemove {
                        participant_id: *participant_id,
                        producer_id: entry.producers[k],
                    });
                    proof {
                        assert(entry.producers@.take(k + 1int).drop_last() =~= entry.producers@.take(
                            k as int,
                        ));
                        assert(entry.producers@.take(k + 1int).map_values(mapper).drop_last()
                            =~= entry.producers@.take(k + 1int).drop_last().map_values(mapper));
                        assert(notes@.drop_last() =~= entry.producers@.take(k as int).map_values(
                            mapper,
                        ));
                        assert(notes@ =~= entry.producers@.take(k + 1int).map_values(mapper));
                    }
                    k += 1;
                }
                self.history = Ghost(self.history@ + notes@);
                proof {
                    let oc = old_self.clients@;
                    let nc = self.clients@;
                    assert(nc == oc.remove(i as int));
                    assert(entry.producers@.take(m as int) =~= entry.producers@);
                    assert(notes@ =~= entry.producers@.map_values(mapper));
                    // The remaining entries keep their order, producers and
                    // distinct participants.
                    assert(forall|j: int|
                        0 <= j < nc.len() ==> #[trigger] nc[j] == if j < i {
                            oc[j]
                        } else {
                            oc[j + 1]
                        });
                    assert(!self.has_participant(*participant_id)) by {
                        if self.has_participant(*participant_id) {
                            let j = choose|j: int|
                                0 <= j < nc.len() && (#[trigger] nc[j]).participant_id
                                    == *participant_id;
                            if j < i {
                                assert(oc[j].participant_id == *participant_id);
                            } else {
                                assert(oc[j + 1].participant_id == *participant_id);
                            }
                        }
                    }
                    // Counting: the removed entry's producers move from present
                    // to removed, every other producer is untouched.
                    assert forall|p: ProducerId| #[trigger] adds_for(self.history@, p)
                        == removes_for(self.history@, p) + entries_with(nc, p) by {
                        lemma_counts_concat(old_self.history@, notes@, p);
                        lemma_entries_with_remove(oc, i as int, p);
                        lemma_removes_in_mapped_notes(entry.producers@, *participant_id, p);
                        lemma_occurrences_no_duplicates(entry.producers@, p);
                        assert(adds_for(notes@, p) == 0);
                        assert(removes_for(notes@, p) == occurrences_of(entry.producers@, p));
                    }
                    assert(old_self.has_participant(*participant_id)) by {
                        assert(oc[i as int].participant_id == *participant_id);
                    }
                }
                notes
            },
        }
    }

    /// A point-in-time snapshot of every `(participant, producer)` pair, in entry
    /// order, each entry's producers in publication order.
    pub fn get_all_producers(&self) -> (r: Vec<(ParticipantId, ProducerId)>)
        ensures
            r@ == self.all_producer_pairs(),
    {
        let mut r: Vec<(ParticipantId, ProducerId)> = Vec::new();
        let n = self.clients.len();
        let mut i: usize = 0;
        while i < n
            invariant
                0 <= i <= n,
                n == self.clients@.len(),
                r@ =~= pairs_of(self.clients@.take(i as int)),
            decreases n - i,
        {
            let entry = &self.clients[i];
            let ghost mapper = |p: ProducerId| (entry.participant_id, p);
            let m = entry.producers.len();
            let mut k: usize = 0;
            while k < m
                invariant
                    0 <= k <= m,
                    0 <= i < n,
                    n == self.clients@.len(),
                    m == self.clients@[i as int].producers@.len(),
                    entry == self.clients@[i as int],
                    mapper == (|p: ProducerId| (entry.participant_id, p)),
                    r@ =~= pairs_of(self.clients@.take(i as int)) + entry.producers@.take(
                        k as int,
                    ).map_values(mapper),
                decreases m - k,
            {
                r.push((entry.participant_id, entry.producers[k]));
                proof {
                    assert(entry.producers@.take(k + 1int).drop_last() =~= entry.producers@.take(
                        k as int,
                    ));
                    assert(entry.producers@.take(k + 1int).map_values(mapper).drop_last()
                        =~= entry.producers@.take(k + 1int).drop_last().map_values(mapper));
                    assert(entry.producers@.take(k + 1int).map_values(mapper).last() == mapper(
                        entry.producers@[k as int],
                    ));
                }
                k += 1;
            }
            proof {
                assert(entry.producers@.take(m as int) =~= entry.producers@);
                assert(self.clients@.take(i + 1int).drop_last() =~= self.clients@.take(i as int));
                assert(self.clients@.take(i + 1int).last() == self.clients@[i as int]);
            }
            i += 1;
        }
        proof {
            assert(self.clients@.take(n as int) =~= self.clients@);
        }
        r
    }
}

/// The `(participant, producer)` pairs of the entries, entry by entry, each
/// entry's producers in publication order.
pub open spec fn pairs_of(entries: Seq<RoomEntry>) -> Seq<(ParticipantId, ProducerId)>
    decreases entries.len(),
{
    if entries.len() == 0 {
        Seq::empty()
    } else {
        pairs_of(entries.drop_last())
            + entries.last().producers@.map_values(
            |p: ProducerId| (entries.last().participant_id, p),
        )
    }
}

/// Finds the index of `participant_id`'s entry, if it holds one.
fn find_entry(clients: &Vec<RoomEntry>, participant_id: ParticipantId) -> (r: Option<usize>)
    ensures
        r matches Some(i) ==> {
            &&& i < clients@.len()
            &&& clients@[i as int].participant_id == participant_id
            &&& forall|j: int|
                0 <= j < i ==> (#[trigger] clients@[j]).participant_id != participant_id
        },
        r is None ==> forall|j: int|
            0 <= j < clients@.len()
                ==> (#[trigger] clients@[j]).participant_id != participant_id,
{
    let n = clients.len();
    let mut i: usize = 0;
    while i < n
        invariant
            0 <= i <= n,
            n == clients@.len(),
            forall|j: int|
                0 <= j < i ==> (#[trigger] clients@[j]).participant_id != participant_id,
        decreases n - i,
    {
        if clients[i].participant_id == participant_id {
            return Some(i);
        }
        i += 1;
    }
    None
}

/// Mapping producers to remove notifications yields no adds and exactly the
/// producers' occurrences as removes.
proof fn lemma_removes_in_mapped_notes(
    producers: Seq<ProducerId>,
    participant_id: ParticipantId,
    p: ProducerId,
)
    ensures
        adds_for(
            producers.map_values(
                |q: ProducerId| RoomNotification::ProducerRemove {
                    participant_id,
                    producer_id: q,
                },
            ),
            p,
        ) == 0,
        removes_for(
            producers.map_values(
                |q: ProducerId| RoomNotification::ProducerRemove {
                    participant_id,
                    producer_id: q,
                },
            ),
            p,
        ) == occurrences_of(producers, p),
    decreases producers.len(),
{
    let mapper = |q: ProducerId| RoomNotification::ProducerRemove {
        participant_id,
        producer_id: q,
    };
    if producers.len() > 0 {
        lemma_removes_in_mapped_notes(producers.drop_last(), participant_id, p);
        assert(producers.map_values(mapper).drop_last() =~= producers.drop_last().map_values(
            mapper,
        ));
        assert(producers.map_values(mapper).last() == mapper(producers.last()));
    }
}

/// Law: once a room has no participants left, every producer that was ever
/// announced as added has been announced as removed exactly as often; nothing
/// is still owed and nothing was removed twice.
pub proof fn lemma_empty_room_adds_equal_removes(r: RoomState)
    requires
        r.wf(),
        r.clients@.len() == 0,
    ensures
        forall|p: ProducerId| #[trigger] adds_for(r.history@, p) == removes_for(r.history@, p),
{
}

/// Law: in a well-formed room the removes never outrun the adds; at any time
/// the adds exceed the removes exactly by the producers still present.
pub proof fn lemma_removes_never_exceed_adds(r: RoomState, p: ProducerId)
    requires
        r.wf(),
    ensures
        removes_for(r.history@, p) <= adds_for(r.history@, p),
{
    lemma_entries_with_nonneg(r.clients@, p);
}

/// The containment count is never negative.
proof fn lemma_entries_with_nonneg(s: Seq<RoomEntry>, p: ProducerId)
    ensures
        entries_with(s, p) >= 0,
    decreases s.len(),
{
    if s.len() > 0 {
        lemma_entries_with_nonneg(s.drop_last(), p);
    }
}

/// The event announcing that a room has closed, raised when its last strong
/// reference is dropped.
pub fn room_closed_event(id: RoomId) -> (r: SFUEvent)
    ensures
        r == (SFUEvent::RoomClosed { id }),
{
    SFUEvent::RoomClosed { id }
}

} // verus!
