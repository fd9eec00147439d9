use confroom_server::monitoring::{
    MonitoringEventCategory, MonitorMessage, SFUErrorReturn, SFUEvent,
};
use confroom_server::uuids::{ParticipantId, RoomId};
use confroom_server::wire::{
    decode_event, decode_event_frame, decode_monitor_message, encode_event, encode_event_frame,
    encode_monitor_message,
};

#[test]
fn tag_only_events_encode_to_one_byte() {
    assert_eq!(encode_event(&SFUEvent::MonitorAccepted), vec![0u8]);
    assert_eq!(encode_event(&SFUEvent::ServerStarted), vec![1u8]);
    assert_eq!(encode_event(&SFUEvent::ServerClosed), vec![2u8]);
    assert_eq!(
        encode_event(&SFUEvent::Error(SFUErrorReturn::UnreadableMessage)),
        vec![7u8, 0u8]
    );
}

#[test]
fn room_opened_encodes_tag_and_little_endian_id() {
    let body = encode_event(&SFUEvent::RoomOpened { id: RoomId(0x0201) });
    let mut expected = vec![3u8, 0x01, 0x02];
    expected.extend_from_slice(&[0u8; 14]);
    assert_eq!(body, expected);
}

#[test]
fn every_event_round_trips_through_the_codec() {
    let events = [
        SFUEvent::MonitorAccepted,
        SFUEvent::ServerStarted,
        SFUEvent::ServerClosed,
        SFUEvent::RoomOpened { id: RoomId(u128::MAX) },
        SFUEvent::RoomClosed { id: RoomId(42) },
        SFUEvent::ParticipantEntered { room_id: RoomId(1), participant_id: ParticipantId(2) },
        SFUEvent::ParticipantLeft {
            room_id: RoomId(u128::MAX - 1),
            participant_id: ParticipantId(3),
        },
        SFUEvent::Error(SFUErrorReturn::UnreadableMessage),
    ];
    for evt in events {
        let body = encode_event(&evt);
        assert_eq!(decode_event(&body), Some(evt));
    }
}

#[test]
fn truncated_or_garbled_bodies_do_not_decode() {
    assert_eq!(decode_event(&vec![]), None);
    assert_eq!(decode_event(&vec![3u8, 1, 2]), None);
    assert_eq!(decode_event(&vec![99u8]), None);
    assert_eq!(decode_event(&vec![0u8, 0u8]), None);
}

#[test]
fn frames_carry_a_length_prefix_and_decode_from_a_stream() {
    let e1 = SFUEvent::RoomOpened { id: RoomId(7) };
    let e2 = SFUEvent::ServerClosed;
    let mut stream = encode_event_frame(&e1);
    assert_eq!(&stream[0..4], &[17u8, 0, 0, 0]);
    stream.extend(encode_event_frame(&e2));
    let (d1, next) = decode_event_frame(&stream, 0).unwrap();
    assert_eq!(d1, e1);
    let (d2, end) = decode_event_frame(&stream, next).unwrap();
    assert_eq!(d2, e2);
    assert_eq!(end, stream.len());
    // An incomplete trailing frame does not decode yet.
    stream.extend_from_slice(&[5, 0, 0, 0, 1]);
    assert!(decode_event_frame(&stream, end).is_none());
}

#[test]
fn monitor_requests_round_trip() {
    let greeting = MonitorMessage::Greeting("hello there".to_string());
    let bytes = encode_monitor_message(&greeting);
    match decode_monitor_message(&bytes) {
        Some(MonitorMessage::Greeting(s)) => assert_eq!(s, "hello there"),
        _ => panic!("expected the greeting back"),
    }
    let switch = MonitorMessage::SwitchCategory(MonitoringEventCategory::Room(RoomId(0xabc)));
    let bytes2 = encode_monitor_message(&switch);
    match decode_monitor_message(&bytes2) {
        Some(MonitorMessage::SwitchCategory(MonitoringEventCategory::Room(id))) => {
            assert_eq!(id, RoomId(0xabc));
        },
        _ => panic!("expected the switch back"),
    }
    let global = MonitorMessage::SwitchCategory(MonitoringEventCategory::Global);
    assert_eq!(encode_monitor_message(&global), vec![1u8, 0u8]);
    assert!(matches!(
        decode_monitor_message(&vec![1u8, 0u8]),
        Some(MonitorMessage::SwitchCategory(MonitoringEventCategory::Global))
    ));
}

#[test]
fn unreadable_monitor_bytes_do_not_decode() {
    assert!(decode_monitor_message(&vec![]).is_none());
    assert!(decode_monitor_message(&vec![9u8]).is_none());
    // A greeting whose length field does not cover the payload.
    assert!(decode_monitor_message(&vec![0u8, 5, 0, 0, 0, b'h', b'i']).is_none());
    // A greeting whose payload is not UTF-8.
    assert!(decode_monitor_message(&vec![0u8, 2, 0, 0, 0, 0xff, 0xfe]).is_none());
}
