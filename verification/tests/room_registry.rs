use confroom_server::monitoring::SFUEvent;
use confroom_server::room::{room_closed_event, RoomNotification, RoomState};
use confroom_server::rooms_registry::RoomsRegistry;
use confroom_server::uuids::{ParticipantId, ProducerId, RoomId};

#[test]
fn opening_a_room_announces_it() {
    let (room, evt) = RoomState::new_with_id(RoomId(1));
    assert_eq!(evt, SFUEvent::RoomOpened { id: RoomId(1) });
    assert!(room.clients.is_empty());
    assert_eq!(room_closed_event(RoomId(1)), SFUEvent::RoomClosed { id: RoomId(1) });
}

#[test]
fn add_producer_raises_one_add_notification() {
    let (mut room, _) = RoomState::new_with_id(RoomId(1));
    let a = ParticipantId(1);
    let note = room.add_producer(a, ProducerId(10));
    assert_eq!(
        note,
        RoomNotification::ProducerAdd { participant_id: a, producer_id: ProducerId(10) }
    );
    let note2 = room.add_producer(a, ProducerId(11));
    assert_eq!(
        note2,
        RoomNotification::ProducerAdd { participant_id: a, producer_id: ProducerId(11) }
    );
    assert_eq!(room.clients.len(), 1);
    assert_eq!(room.clients[0].producers, vec![ProducerId(10), ProducerId(11)]);
}

#[test]
fn remove_participant_removes_each_producer_exactly_once_in_order() {
    let (mut room, _) = RoomState::new_with_id(RoomId(1));
    let a = ParticipantId(1);
    let b = ParticipantId(2);
    let _ = room.add_producer(a, ProducerId(10));
    let _ = room.add_producer(b, ProducerId(20));
    let _ = room.add_producer(a, ProducerId(11));
    let notes = room.remove_participant(&a);
    assert_eq!(
        notes,
        vec![
            RoomNotification::ProducerRemove { participant_id: a, producer_id: ProducerId(10) },
            RoomNotification::ProducerRemove { participant_id: a, producer_id: ProducerId(11) },
        ]
    );
    // The other participant's entry is untouched.
    assert_eq!(room.clients.len(), 1);
    assert_eq!(room.clients[0].participant_id, b);
    // Removing again changes nothing and fires nothing.
    let notes2 = room.remove_participant(&a);
    assert!(notes2.is_empty());
}

#[test]
fn adds_and_removes_balance_once_everyone_left() {
    let (mut room, _) = RoomState::new_with_id(RoomId(1));
    let a = ParticipantId(1);
    let b = ParticipantId(2);
    let mut adds = 0usize;
    let mut removes = 0usize;
    for p in [ProducerId(10), ProducerId(11)] {
        let _ = room.add_producer(a, p);
        adds += 1;
    }
    let _ = room.add_producer(b, ProducerId(20));
    adds += 1;
    removes += room.remove_participant(&a).len();
    removes += room.remove_participant(&b).len();
    assert!(room.clients.is_empty());
    assert_eq!(adds, removes);
}

#[test]
fn snapshot_lists_pairs_in_entry_and_publication_order() {
    let (mut room, _) = RoomState::new_with_id(RoomId(1));
    let a = ParticipantId(1);
    let b = ParticipantId(2);
    let _ = room.add_producer(a, ProducerId(10));
    let _ = room.add_producer(b, ProducerId(20));
    let _ = room.add_producer(a, ProducerId(11));
    let pairs = room.get_all_producers();
    assert_eq!(
        pairs,
        vec![(a, ProducerId(10)), (a, ProducerId(11)), (b, ProducerId(20))]
    );
}

#[test]
fn registry_forgets_a_room_after_its_close_hook_runs() {
    let mut reg = RoomsRegistry::new();
    reg.register(RoomId(1));
    reg.register(RoomId(2));
    assert!(reg.has_room(&RoomId(1)));
    assert!(reg.has_room(&RoomId(2)));
    // The close hook that runs when the last participant leaves prunes the
    // entry.
    reg.prune(&RoomId(1));
    assert!(!reg.has_room(&RoomId(1)));
    assert!(reg.has_room(&RoomId(2)));
}

#[test]
fn registering_twice_keeps_one_entry() {
    let mut reg = RoomsRegistry::new();
    reg.register(RoomId(1));
    reg.register(RoomId(1));
    assert_eq!(reg.rooms.len(), 1);
    reg.prune(&RoomId(1));
    assert!(!reg.has_room(&RoomId(1)));
    assert!(reg.rooms.is_empty());
}

#[test]
fn pruning_an_absent_room_is_harmless() {
    let mut reg = RoomsRegistry::new();
    reg.register(RoomId(1));
    reg.prune(&RoomId(9));
    assert!(reg.has_room(&RoomId(1)));
}
