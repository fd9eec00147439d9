//! The rooms registry: which room identifiers are currently registered.
//!
//! The registry only remembers identifiers; the binary holds the weak room
//! handles. A room is registered when it is created, and pruned by the
//! room's close hook, so that after the last participant leaves a room the
//! registry no longer contains it.

use vstd::prelude::*;
use crate::uuids::RoomId;

verus! {

/// The registry's record of registered room identifiers, in registration
/// order.
pub struct RoomsRegistry {
    pub rooms: Vec<RoomId>,
}

impl RoomsRegistry {
    /// Whether `room_id` is registered.
    pub open spec fn spec_has_room(self, room_id: RoomId) -> bool {
        self.rooms@.contains(room_id)
    }

    /// Well-formedness: each room identifier is registered at most once.
    pub open spec fn wf(self) -> bool {
        self.rooms@.no_duplicates()
    }

    /// An empty registry.
    pub fn new() -> (r: Self)
        ensures
            r.rooms@.len() == 0,
            r.wf(),
    {
        RoomsRegistry { rooms: Vec::new() }
    }

    /// Whether `room_id` is registered; a registered room may still turn out
    /// to be closed when its weak handle fails to upgrade, in which case the
    /// caller builds a fresh room and registers it again.
    pub fn has_room(&self, room_id: &RoomId) -> (r: bool)
        ensures
            r == self.spec_has_room(*room_id),
    {
        let n = self.rooms.len();
        let mut i: usize = 0;
        while i < n
            invariant
                0 <= i <= n,
                n == self.rooms@.len(),
                forall|j: int| 0 <= j < i ==> self.rooms@[j] != *room_id,
            decreases n - i,
        {
            if self.rooms[i].0 == room_id.0 {
                return true;
            }
            i += 1;
        }
        false
    }

    /// Registers `room_id`; registering an identifier that is already present
    /// keeps the registry unchanged, so when two creations race for one
    /// identifier the identifier stays registered once.
    pub fn register(&mut self, room_id: RoomId)
        requires
            old(self).wf(),
        ensures
            final(self).wf(),
            final(self).spec_has_room(room_id),
            old(self).spec_has_room(room_id) ==> final(self).rooms@ == old(self).rooms@,
            !old(self).spec_has_room(room_id) ==> final(self).rooms@ == old(self).rooms@.push(
                room_id,
            ),
            forall|other: RoomId|
                #[trigger] final(self).spec_has_room(other) <==> (old(self).spec_has_room(other)
                    || other == room_id),
    {
        if !self.has_room(&room_id) {
            let ghost old_rooms = self.rooms@;
            self.rooms.push(room_id);
            proof {
                assert(self.rooms@.last() == room_id);
                assert(self.rooms@.drop_last() =~= old_rooms);
                assert forall|other: RoomId| #[trigger]
                    self.rooms@.contains(other) <==> (old_rooms.contains(other) || other
                        == room_id) by {
                    if self.rooms@.contains(other) {
                        let k = choose|k: int|
                            0 <= k < self.rooms@.len() && self.rooms@[k] == other;
                        if k < old_rooms.len() {
                            assert(old_rooms[k] == other);
                        }
                    }
                    if old_rooms.contains(other) {
                        let k = choose|k: int| 0 <= k < old_rooms.len() && old_rooms[k] == other;
                        assert(self.rooms@[k] == other);
                    }
                }
            }
        }
    }

    /// Removes `room_id` from the registry: the close hook a room creation
    /// installs, run when the room's last strong reference is dropped.
    pub fn prune(&mut self, room_id: &RoomId)
        requires
            old(self).wf(),
        ensures
            final(self).wf(),
            !final(self).spec_has_room(*room_id),
            forall|other: RoomId|
                other != *room_id ==> (#[trigger] final(self).spec_has_room(other) == old(
                    self,
                ).spec_has_room(other)),
    {
        let n = self.rooms.len();
        let mut i: usize = 0;
        while i < n
            invariant
                0 <= i <= n,
                n == self.rooms@.len(),
                old(self) == self,
                self.rooms@.no_duplicates(),
                forall|j: int| 0 <= j < i ==> self.rooms@[j] != *room_id,
            decreases n - i,
        {
            if self.rooms[i].0 == room_id.0 {
                let ghost old_rooms = self.rooms@;
                self.rooms.remove(i);
                proof {
                    assert(old_rooms.no_duplicates());
                    assert(forall|k: int|
                        0 <= k < self.rooms@.len() ==> #[trigger] self.rooms@[k] == if k < i {
                            old_rooms[k]
                        } else {
                            old_rooms[k + 1]
                        });
                    assert(!self.rooms@.contains(*room_id)) by {
                        if self.rooms@.contains(*room_id) {
                            let k = choose|k: int|
                                0 <= k < self.rooms@.len() && self.rooms@[k] == *room_id;
                            if k < i {
                                assert(old_rooms[k] == *room_id);
                            } else {
                                assert(old_rooms[k + 1] == *room_id);
                                assert(old_rooms[i as int] == *room_id);
                            }
                        }
                    }
                    assert forall|other: RoomId|
                        other != *room_id implies (#[trigger] self.rooms@.contains(other)
                        == old_rooms.contains(other)) by {
                        if self.rooms@.contains(other) {
                            let k = choose|k: int|
                                0 <= k < self.rooms@.len() && self.rooms@[k] == other;
                            if k < i {
                                assert(old_rooms[k] == other);
                            } else {
                                assert(old_rooms[k + 1] == other);
                            }
                        }
                        if old_rooms.contains(other) {
                            let k = choose|k: int|
                                0 <= k < old_rooms.len() && old_rooms[k] == other;
                            if k < i {
                                assert(self.rooms@[k] == other);
                            } else if k > i {
                                assert(self.rooms@[k - 1] == other);
                            } else {
                                assert(old_rooms[i as int] == *room_id);
                            }
                        }
                    }
                }
                return;
            }
            i += 1;
        }
    }
}

} // verus!
