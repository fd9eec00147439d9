use confroom_server::monitor_dispatch::MonitorDispatch;
use confroom_server::monitoring::{
    is_interested_in, MonitoringEventCategory, MonitorMessage, SFUErrorReturn, SFUEvent,
};
use confroom_server::uuids::{MonitorId, ParticipantId, RoomId};

#[test]
fn global_subscription_matches_lifecycle_events_only() {
    let g = MonitoringEventCategory::Global;
    assert!(is_interested_in(g, &SFUEvent::MonitorAccepted));
    assert!(is_interested_in(g, &SFUEvent::ServerStarted));
    assert!(is_interested_in(g, &SFUEvent::ServerClosed));
    assert!(is_interested_in(g, &SFUEvent::RoomOpened { id: RoomId(1) }));
    assert!(is_interested_in(g, &SFUEvent::RoomClosed { id: RoomId(1) }));
    assert!(!is_interested_in(
        g,
        &SFUEvent::ParticipantEntered { room_id: RoomId(1), participant_id: ParticipantId(2) }
    ));
    assert!(!is_interested_in(
        g,
        &SFUEvent::ParticipantLeft { room_id: RoomId(1), participant_id: ParticipantId(2) }
    ));
    assert!(!is_interested_in(g, &SFUEvent::Error(SFUErrorReturn::UnreadableMessage)));
}

#[test]
fn room_subscription_matches_its_room_only() {
    let r1 = MonitoringEventCategory::Room(RoomId(1));
    let enter_r1 =
        SFUEvent::ParticipantEntered { room_id: RoomId(1), participant_id: ParticipantId(5) };
    let enter_r2 =
        SFUEvent::ParticipantEntered { room_id: RoomId(2), participant_id: ParticipantId(5) };
    assert!(is_interested_in(r1, &enter_r1));
    assert!(!is_interested_in(r1, &enter_r2));
    assert!(!is_interested_in(r1, &SFUEvent::RoomOpened { id: RoomId(1) }));
    assert!(is_interested_in(
        r1,
        &SFUEvent::ParticipantLeft { room_id: RoomId(1), participant_id: ParticipantId(5) }
    ));
}

#[test]
fn fanout_reaches_exactly_the_matching_monitors_in_order() {
    // M1 listens globally; M2 follows room 1. A participant enters rooms 1
    // and 2: M1 hears neither, M2 hears only the room-1 entry.
    let mut d = MonitorDispatch::new();
    let m1 = MonitorId(1);
    let m2 = MonitorId(2);
    assert_eq!(d.add_monitor(m1), SFUEvent::MonitorAccepted);
    assert_eq!(d.add_monitor(m2), SFUEvent::MonitorAccepted);
    d.apply_monitor_message(
        m2,
        &MonitorMessage::SwitchCategory(MonitoringEventCategory::Room(RoomId(1))),
    );
    let enter_r1 =
        SFUEvent::ParticipantEntered { room_id: RoomId(1), participant_id: ParticipantId(7) };
    let enter_r2 =
        SFUEvent::ParticipantEntered { room_id: RoomId(2), participant_id: ParticipantId(7) };
    assert_eq!(d.targets_for(&enter_r1), vec![m2]);
    assert_eq!(d.targets_for(&enter_r2), Vec::<MonitorId>::new());
    assert_eq!(d.targets_for(&SFUEvent::RoomOpened { id: RoomId(1) }), vec![m1]);
}

#[test]
fn a_greeting_changes_nothing() {
    let mut d = MonitorDispatch::new();
    let m = MonitorId(1);
    let _ = d.add_monitor(m);
    d.apply_monitor_message(m, &MonitorMessage::Greeting("hello".to_string()));
    assert_eq!(d.targets_for(&SFUEvent::ServerStarted), vec![m]);
}

#[test]
fn three_consecutive_send_failures_evict_a_monitor() {
    let mut d = MonitorDispatch::new();
    let m = MonitorId(1);
    let _ = d.add_monitor(m);
    assert!(!d.record_send_result(m, false));
    assert!(!d.record_send_result(m, false));
    // A success wipes the streak.
    assert!(!d.record_send_result(m, true));
    assert!(!d.record_send_result(m, false));
    assert!(!d.record_send_result(m, false));
    assert!(d.record_send_result(m, false));
    d.remove_monitor(m);
    assert!(d.monitors.is_empty());
    assert_eq!(d.targets_for(&SFUEvent::ServerStarted), Vec::<MonitorId>::new());
}
