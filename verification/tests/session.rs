use confroom_server::message::{ClientMessage, ServerMessage};
use confroom_server::participant::{
    apply_consume_result, apply_produce_result, handle_client_message, handle_frame,
    initial_session_messages, on_recv_error, on_room_fatal_error, on_send_result,
    peer_producer_added, peer_producer_removed, session_new, ConsumerInfo, SessionAction,
};
use confroom_server::router_dispatch::MediaKind;
use confroom_server::uuids::{ConsumerId, ParticipantId, ProducerId, RoomId};
use confroom_server::websocket::WsMessageKind;

fn fresh() -> confroom_server::participant::SessionState {
    session_new(ParticipantId(100), RoomId(7))
}

#[test]
fn ping_is_answered_by_exactly_one_pong_with_identical_payload() {
    let mut s = fresh();
    let payload = vec![0u8, 1, 2, 253, 254, 255];
    let out = handle_frame(&mut s, WsMessageKind::Ping(payload.clone()));
    assert_eq!(out.len(), 1);
    match &out[0] {
        SessionAction::ReplyPong(data) => assert_eq!(*data, payload),
        _ => panic!("expected a pong"),
    }
}

#[test]
fn pong_frames_are_ignored() {
    let mut s = fresh();
    let out = handle_frame(&mut s, WsMessageKind::Pong(vec![1]));
    assert!(out.is_empty());
}

#[test]
fn binary_frame_earns_a_warning_and_session_stays_open() {
    let mut s = fresh();
    let out = handle_frame(&mut s, WsMessageKind::Binary(vec![0, 1]));
    assert_eq!(out.len(), 1);
    assert!(matches!(&out[0], SessionAction::Reply(ServerMessage::Warning { .. })));
    assert!(!s.closed);
}

#[test]
fn close_frame_closes_the_session() {
    let mut s = fresh();
    let out = handle_frame(&mut s, WsMessageKind::Close(None));
    assert_eq!(out.len(), 1);
    assert!(matches!(&out[0], SessionAction::CloseConnection));
    assert!(s.closed);
}

#[test]
fn malformed_signaling_warns_and_keeps_accepting() {
    // A valid JSON object missing required fields earns exactly one warning.
    let mut s = fresh();
    let out = handle_frame(&mut s, WsMessageKind::Text(r#"{"action":"produce"}"#.to_string()));
    assert_eq!(out.len(), 1);
    assert!(matches!(&out[0], SessionAction::Reply(ServerMessage::Warning { .. })));
    assert!(!s.closed);
    // The session still accepts a subsequent valid message.
    let out2 = handle_frame(
        &mut s,
        WsMessageKind::Text(r#"{"action":"init","rtpCapabilities":{}}"#.to_string()),
    );
    assert_eq!(out2.len(), 1);
    assert!(matches!(&out2[0], SessionAction::CacheClientRtpCapabilities { .. }));
    assert!(s.has_client_rtp_capabilities);
}

#[test]
fn broken_json_is_only_logged() {
    let mut s = fresh();
    let out = handle_frame(&mut s, WsMessageKind::Text("{\"action\"".to_string()));
    assert!(out.is_empty());
    assert!(!s.closed);
}

#[test]
fn consume_before_init_earns_a_warning_and_no_worker_call() {
    let mut s = fresh();
    let out = handle_client_message(&mut s, ClientMessage::Consume { producer_id: ProducerId(9) });
    assert_eq!(out.len(), 1);
    match &out[0] {
        SessionAction::Reply(ServerMessage::Warning { message }) => {
            assert!(message.contains("Init"));
        },
        _ => panic!("expected a warning"),
    }
    assert!(s.pending.is_none());
}

#[test]
fn consume_after_init_reaches_the_worker_and_confirms() {
    let mut s = fresh();
    let _ = handle_client_message(&mut s, ClientMessage::Init { rtp_capabilities: b"{}".to_vec() });
    let out = handle_client_message(&mut s, ClientMessage::Consume { producer_id: ProducerId(9) });
    assert_eq!(out.len(), 1);
    assert!(matches!(&out[0], SessionAction::ConsumeOnWorker { producer_id } if *producer_id == ProducerId(9)));
    let out2 = apply_consume_result(
        &mut s,
        Some(ConsumerInfo {
            id: ConsumerId(5),
            kind: MediaKind::Audio,
            rtp_parameters: "{}".to_string(),
            producer_id: ProducerId(9),
        }),
    );
    assert_eq!(out2.len(), 1);
    match &out2[0] {
        SessionAction::Reply(ServerMessage::Consumed { id, kind, producer_id, .. }) => {
            assert_eq!(*id, ConsumerId(5));
            assert_eq!(*kind, MediaKind::Audio);
            assert_eq!(*producer_id, ProducerId(9));
        },
        _ => panic!("expected a consumed reply"),
    }
    assert_eq!(s.consumers, vec![ConsumerId(5)]);
}

#[test]
fn resume_of_known_consumer_is_silent_and_unknown_warns() {
    let mut s = fresh();
    s.consumers.push(ConsumerId(5));
    let out = handle_client_message(&mut s, ClientMessage::ConsumerResume { id: ConsumerId(5) });
    assert_eq!(out.len(), 1);
    assert!(matches!(&out[0], SessionAction::ResumeConsumer { id } if *id == ConsumerId(5)));
    let out2 = handle_client_message(&mut s, ClientMessage::ConsumerResume { id: ConsumerId(6) });
    assert_eq!(out2.len(), 1);
    assert!(matches!(&out2[0], SessionAction::Reply(ServerMessage::Warning { .. })));
}

#[test]
fn connect_producer_transport_is_idempotent() {
    let mut s = fresh();
    let msg = || ClientMessage::ConnectProducerTransport { dtls_parameters: b"{}".to_vec() };
    let out1 = handle_client_message(&mut s, msg());
    let out2 = handle_client_message(&mut s, msg());
    for out in [&out1, &out2] {
        assert_eq!(out.len(), 2);
        assert!(matches!(&out[0], SessionAction::ConnectProducerTransport { .. }));
        assert!(matches!(&out[1], SessionAction::Reply(ServerMessage::ConnectedProducerTransport)));
    }
    assert!(!s.has_client_rtp_capabilities);
    assert!(s.pending.is_none());
    assert!(s.consumers.is_empty() && s.producers.is_empty());
}

#[test]
fn produce_publishes_and_confirms_on_success() {
    let mut s = fresh();
    let out = handle_client_message(
        &mut s,
        ClientMessage::Produce { kind: MediaKind::Audio, rtp_parameters: b"{}".to_vec() },
    );
    assert_eq!(out.len(), 1);
    assert!(matches!(&out[0], SessionAction::ProduceOnWorker { kind: MediaKind::Audio, .. }));
    let out2 = apply_produce_result(&mut s, Some(ProducerId(77)));
    assert_eq!(out2.len(), 2);
    assert!(matches!(&out2[0], SessionAction::PublishProducer { producer_id } if *producer_id == ProducerId(77)));
    assert!(matches!(&out2[1], SessionAction::Reply(ServerMessage::Produced { id }) if *id == ProducerId(77)));
    assert_eq!(s.producers, vec![ProducerId(77)]);
}

#[test]
fn produce_failure_warns() {
    let mut s = fresh();
    let _ = handle_client_message(
        &mut s,
        ClientMessage::Produce { kind: MediaKind::Video, rtp_parameters: b"{}".to_vec() },
    );
    let out = apply_produce_result(&mut s, None);
    assert_eq!(out.len(), 1);
    assert!(matches!(&out[0], SessionAction::Reply(ServerMessage::Warning { .. })));
    assert!(s.producers.is_empty());
}

#[test]
fn three_consecutive_recv_errors_close_the_session() {
    let mut s = fresh();
    assert!(on_recv_error(&mut s).is_empty());
    assert!(on_recv_error(&mut s).is_empty());
    let out = on_recv_error(&mut s);
    assert_eq!(out.len(), 1);
    assert!(matches!(&out[0], SessionAction::CloseConnection));
    assert!(s.closed);
}

#[test]
fn a_successful_frame_resets_the_recv_error_streak() {
    let mut s = fresh();
    let _ = on_recv_error(&mut s);
    let _ = on_recv_error(&mut s);
    let _ = handle_frame(&mut s, WsMessageKind::Pong(vec![]));
    assert_eq!(s.recv_error_count, 0);
    let _ = on_recv_error(&mut s);
    assert!(!s.closed);
}

#[test]
fn three_consecutive_send_failures_close_and_success_resets() {
    let mut s = fresh();
    assert!(on_send_result(&mut s, false).is_empty());
    assert!(on_send_result(&mut s, false).is_empty());
    assert!(on_send_result(&mut s, true).is_empty());
    assert_eq!(s.send_error_count, 0);
    assert!(on_send_result(&mut s, false).is_empty());
    assert!(on_send_result(&mut s, false).is_empty());
    let out = on_send_result(&mut s, false);
    assert_eq!(out.len(), 1);
    assert!(matches!(&out[0], SessionAction::CloseConnection));
    assert!(s.closed);
}

#[test]
fn room_fatal_error_closes_the_websocket() {
    let mut s = fresh();
    let out = on_room_fatal_error(&mut s);
    assert_eq!(out.len(), 1);
    assert!(matches!(&out[0], SessionAction::CloseConnection));
    assert!(s.closed);
}

#[test]
fn peers_are_notified_and_the_publisher_is_not() {
    let a = ParticipantId(1);
    let b = ParticipantId(2);
    let p = ProducerId(3);
    assert!(peer_producer_added(a, a, p).is_none());
    match peer_producer_added(b, a, p) {
        Some(ServerMessage::ProducerAdded { participant_id, producer_id }) => {
            assert_eq!(participant_id, a);
            assert_eq!(producer_id, p);
        },
        _ => panic!("expected a producer-added message"),
    }
    assert!(peer_producer_removed(a, a, p).is_none());
    assert!(matches!(
        peer_producer_removed(b, a, p),
        Some(ServerMessage::ProducerRemoved { .. })
    ));
}

#[test]
fn new_session_sees_init_then_existing_producers_excluding_own() {
    // A joins a room where P exists: the outbound channel holds Init first,
    // then one ProducerAdded per other participant's producer.
    let own = ParticipantId(2);
    let opts = |n: u128| confroom_server::message::TransportOptions {
        id: confroom_server::uuids::TransportId(n),
        dtls_parameters: "{}".to_string(),
        ice_parameters: "{}".to_string(),
        ice_candidates: "[]".to_string(),
    };
    let existing = vec![
        (ParticipantId(1), ProducerId(10)),
        (own, ProducerId(11)),
        (ParticipantId(3), ProducerId(12)),
    ];
    let msgs = initial_session_messages(
        own,
        RoomId(7),
        "{}".to_string(),
        opts(1),
        opts(2),
        &existing,
    );
    assert_eq!(msgs.len(), 3);
    assert!(matches!(&msgs[0], ServerMessage::Init { room_id, .. } if *room_id == RoomId(7)));
    assert!(matches!(&msgs[1], ServerMessage::ProducerAdded { participant_id, producer_id }
        if *participant_id == ParticipantId(1) && *producer_id == ProducerId(10)));
    assert!(matches!(&msgs[2], ServerMessage::ProducerAdded { participant_id, producer_id }
        if *participant_id == ParticipantId(3) && *producer_id == ProducerId(12)));
}
