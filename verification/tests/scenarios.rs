//! End-to-end scenarios over the coordination models, driving rooms, sessions,
//! the worker pool and the monitor dispatch together the way the binary does.

use confroom_server::message::{ClientMessage, ServerMessage};
use confroom_server::monitor_dispatch::MonitorDispatch;
use confroom_server::monitoring::{MonitoringEventCategory, MonitorMessage, SFUEvent};
use confroom_server::participant::{
    apply_consume_result, apply_produce_result, handle_client_message, handle_frame,
    on_room_fatal_error, peer_producer_added, peer_producer_removed, session_new, ConsumerInfo,
    SessionAction,
};
use confroom_server::room::{RoomNotification, RoomState};
use confroom_server::router_dispatch::{MediaKind, WorkerPool};
use confroom_server::uuids::{ConsumerId, MonitorId, ParticipantId, ProducerId, RoomId, WorkerId};
use confroom_server::websocket::WsMessageKind;

#[test]
fn single_producer_single_consumer() {
    // A connects, inits, produces; B joins the room, inits, consumes and
    // resumes — no warning anywhere.
    let room_id = RoomId(1);
    let (mut room, _) = RoomState::new_with_id(room_id);
    let a = ParticipantId(10);
    let b = ParticipantId(20);
    let mut session_a = session_new(a, room_id);
    let mut session_b = session_new(b, room_id);

    let out = handle_frame(
        &mut session_a,
        WsMessageKind::Text(r#"{"action":"init","rtpCapabilities":{}}"#.to_string()),
    );
    assert!(matches!(&out[0], SessionAction::CacheClientRtpCapabilities { .. }));

    let out = handle_frame(
        &mut session_a,
        WsMessageKind::Text(
            r#"{"action":"produce","kind":"audio","rtpParameters":{}}"#.to_string(),
        ),
    );
    assert!(matches!(&out[0], SessionAction::ProduceOnWorker { kind: MediaKind::Audio, .. }));
    let p = ProducerId(0xaaaa);
    let out = apply_produce_result(&mut session_a, Some(p));
    assert!(matches!(&out[0], SessionAction::PublishProducer { producer_id } if *producer_id == p));
    assert!(matches!(&out[1], SessionAction::Reply(ServerMessage::Produced { id }) if *id == p));
    let _ = room.add_producer(a, p);

    let out = handle_frame(
        &mut session_b,
        WsMessageKind::Text(r#"{"action":"init","rtpCapabilities":{}}"#.to_string()),
    );
    assert!(matches!(&out[0], SessionAction::CacheClientRtpCapabilities { .. }));
    let consume = format!(
        "{{\"action\":\"consume\",\"producerId\":\"0000000000000000000000000000aaaa\"}}"
    );
    // A consume with a malformed id text is refused...
    let out = handle_frame(&mut session_b, WsMessageKind::Text(consume));
    assert!(matches!(&out[0], SessionAction::Reply(ServerMessage::Warning { .. })));
    // ... and the hyphenated one reaches the worker.
    let out = handle_frame(
        &mut session_b,
        WsMessageKind::Text(
            r#"{"action":"consume","producerId":"00000000-0000-0000-0000-00000000aaaa"}"#
                .to_string(),
        ),
    );
    assert!(matches!(&out[0], SessionAction::ConsumeOnWorker { producer_id } if *producer_id == p));
    let c = ConsumerId(0xcccc);
    let out = apply_consume_result(
        &mut session_b,
        Some(ConsumerInfo {
            id: c,
            kind: MediaKind::Audio,
            rtp_parameters: "{}".to_string(),
            producer_id: p,
        }),
    );
    match &out[0] {
        SessionAction::Reply(ServerMessage::Consumed { id, kind, producer_id, .. }) => {
            assert_eq!(*id, c);
            assert_eq!(*kind, MediaKind::Audio);
            assert_eq!(*producer_id, p);
        },
        _ => panic!("expected a consumed reply"),
    }
    // The resume of the known consumer draws no warning and no reply.
    let out = handle_frame(
        &mut session_b,
        WsMessageKind::Text(
            r#"{"action":"consumerResume","id":"00000000-0000-0000-0000-00000000cccc"}"#
                .to_string(),
        ),
    );
    assert_eq!(out.len(), 1);
    assert!(matches!(&out[0], SessionAction::ResumeConsumer { id } if *id == c));
}

#[test]
fn peer_producer_notification_on_join() {
    // A has an active producer; when B joins, B's channel holds Init followed
    // by exactly that ProducerAdded.
    let room_id = RoomId(1);
    let (mut room, _) = RoomState::new_with_id(room_id);
    let a = ParticipantId(10);
    let b = ParticipantId(20);
    let p = ProducerId(30);
    let _ = room.add_producer(a, p);
    let opts = |n: u128| confroom_server::message::TransportOptions {
        id: confroom_server::uuids::TransportId(n),
        dtls_parameters: "{}".to_string(),
        ice_parameters: "{}".to_string(),
        ice_candidates: "[]".to_string(),
    };
    let msgs = confroom_server::participant::initial_session_messages(
        b,
        room_id,
        "{}".to_string(),
        opts(1),
        opts(2),
        &room.get_all_producers(),
    );
    assert_eq!(msgs.len(), 2);
    assert!(matches!(&msgs[0], ServerMessage::Init { .. }));
    assert!(matches!(&msgs[1], ServerMessage::ProducerAdded { participant_id, producer_id }
        if *participant_id == a && *producer_id == p));
}

#[test]
fn participant_leaving_notifies_consumers_and_monitors() {
    // A produces in room R while B consumes; A's socket closes: B hears
    // ProducerRemoved, and a monitor following R hears the departure.
    let room_id = RoomId(1);
    let (mut room, _) = RoomState::new_with_id(room_id);
    let a = ParticipantId(10);
    let b = ParticipantId(20);
    let p = ProducerId(30);
    let _ = room.add_producer(a, p);

    // A's WebSocket closes; its session drop removes it from the room.
    let mut session_a = session_new(a, room_id);
    let out = handle_frame(&mut session_a, WsMessageKind::Close(None));
    assert!(matches!(&out[0], SessionAction::CloseConnection));
    let notes = room.remove_participant(&a);
    assert_eq!(
        notes,
        vec![RoomNotification::ProducerRemove { participant_id: a, producer_id: p }]
    );
    // B's subscription turns the notification into exactly one message.
    match notes[0] {
        RoomNotification::ProducerRemove { participant_id, producer_id } => {
            let msg = peer_producer_removed(b, participant_id, producer_id);
            assert!(matches!(msg, Some(ServerMessage::ProducerRemoved { .. })));
            // A itself is not told.
            assert!(peer_producer_removed(a, participant_id, producer_id).is_none());
        },
        _ => panic!("expected a remove notification"),
    }
    // The departure event reaches the monitor subscribed to the room; the
    // room still exists, because B is present, so no RoomClosed is due.
    let mut dispatch = MonitorDispatch::new();
    let m = MonitorId(1);
    let _ = dispatch.add_monitor(m);
    dispatch.apply_monitor_message(
        m,
        &MonitorMessage::SwitchCategory(MonitoringEventCategory::Room(room_id)),
    );
    let left = SFUEvent::ParticipantLeft { room_id, participant_id: a };
    assert_eq!(dispatch.targets_for(&left), vec![m]);
}

#[test]
fn worker_death_closes_every_session_of_its_rooms() {
    // Room R with participants A and B lives on a worker that dies with
    // consumers: the room's fatal error closes both sockets, and a global
    // monitor hears the room close once the sessions are gone.
    let mut pool = WorkerPool::new(1, 500);
    pool.register_worker(WorkerId(1));
    pool.assign_router(0);
    pool.increase_consumer_count(WorkerId(1));
    let had_consumers = pool.on_worker_dead(WorkerId(1));
    assert!(had_consumers);

    let room_id = RoomId(1);
    let mut session_a = session_new(ParticipantId(10), room_id);
    let mut session_b = session_new(ParticipantId(20), room_id);
    for s in [&mut session_a, &mut session_b] {
        let out = on_room_fatal_error(s);
        assert_eq!(out.len(), 1);
        assert!(matches!(&out[0], SessionAction::CloseConnection));
        assert!(s.closed);
    }

    let mut dispatch = MonitorDispatch::new();
    let m = MonitorId(1);
    let _ = dispatch.add_monitor(m);
    let closed = confroom_server::room::room_closed_event(room_id);
    assert_eq!(dispatch.targets_for(&closed), vec![m]);
}

#[test]
fn init_is_required_before_any_consumed_reply() {
    // Driving a session with everything except Init never yields a consume
    // on the worker, hence never a Consumed reply.
    let mut s = session_new(ParticipantId(1), RoomId(1));
    let frames = [
        WsMessageKind::Ping(vec![1]),
        WsMessageKind::Text(r#"{"action":"connectProducerTransport","dtlsParameters":{}}"#.to_string()),
        WsMessageKind::Text(r#"{"action":"consume","producerId":"00000000-0000-0000-0000-000000000001"}"#.to_string()),
        WsMessageKind::Text(r#"{"action":"consumerResume","id":"00000000-0000-0000-0000-000000000001"}"#.to_string()),
    ];
    for frame in frames {
        let out = handle_frame(&mut s, frame);
        for action in &out {
            assert!(!matches!(action, SessionAction::ConsumeOnWorker { .. }));
            assert!(!matches!(action, SessionAction::Reply(ServerMessage::Consumed { .. })));
        }
    }
    assert!(s.pending.is_none());
}

#[test]
fn a_producer_added_is_seen_exactly_once_per_peer() {
    // Participant a publishes p while b and c are present: each peer's filter
    // yields exactly one ProducerAdded, and a's own filter none.
    let room_id = RoomId(1);
    let (mut room, _) = RoomState::new_with_id(room_id);
    let a = ParticipantId(1);
    let b = ParticipantId(2);
    let c = ParticipantId(3);
    let note = room.add_producer(a, ProducerId(9));
    match note {
        RoomNotification::ProducerAdd { participant_id, producer_id } => {
            let mut per_peer = 0;
            for own in [a, b, c] {
                if let Some(msg) = peer_producer_added(own, participant_id, producer_id) {
                    per_peer += 1;
                    assert!(matches!(msg, ServerMessage::ProducerAdded { .. }));
                    assert!(own != a);
                }
            }
            assert_eq!(per_peer, 2);
        },
        _ => panic!("expected an add notification"),
    }
}

#[test]
fn handle_client_message_matches_handle_frame_on_parsed_text() {
    // The two entry points agree: feeding the parsed message directly equals
    // feeding the text frame.
    let mut s1 = session_new(ParticipantId(1), RoomId(1));
    let mut s2 = session_new(ParticipantId(1), RoomId(1));
    let out1 = handle_frame(
        &mut s1,
        WsMessageKind::Text(r#"{"action":"init","rtpCapabilities":{"a":1}}"#.to_string()),
    );
    let out2 = handle_client_message(
        &mut s2,
        ClientMessage::Init { rtp_capabilities: br#"{"a":1}"#.to_vec() },
    );
    assert_eq!(out1.len(), out2.len());
    match (&out1[0], &out2[0]) {
        (
            SessionAction::CacheClientRtpCapabilities { rtp_capabilities: b1 },
            SessionAction::CacheClientRtpCapabilities { rtp_capabilities: b2 },
        ) => assert_eq!(b1, b2),
        _ => panic!("expected matching cache actions"),
    }
    assert_eq!(s1.has_client_rtp_capabilities, s2.has_client_rtp_capabilities);
}
