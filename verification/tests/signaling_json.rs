use confroom_server::message::{ClientMessage, ServerMessage, TransportOptions};
use confroom_server::router_dispatch::MediaKind;
use confroom_server::signaling::{parse_client_message, server_message_to_json, ParseOutcome};
use confroom_server::uuids::{ConsumerId, ParticipantId, ProducerId, RoomId, TransportId};

#[test]
fn parse_init_extracts_capability_blob() {
    let text = r#"{"action":"init","rtpCapabilities":{"codecs":[1,2,{"x":"}"}]}}"#;
    match parse_client_message(text) {
        ParseOutcome::Message(ClientMessage::Init { rtp_capabilities }) => {
            assert_eq!(rtp_capabilities, br#"{"codecs":[1,2,{"x":"}"}]}"#.to_vec());
        },
        _ => panic!("expected an init message"),
    }
}

#[test]
fn parse_accepts_members_in_any_order_and_whitespace() {
    let text = " { \"rtpParameters\" : [ 1 , 2 ] , \"kind\" : \"video\" , \"action\" : \"produce\" } ";
    match parse_client_message(text) {
        ParseOutcome::Message(ClientMessage::Produce { kind, rtp_parameters }) => {
            assert_eq!(kind, MediaKind::Video);
            assert_eq!(rtp_parameters, b"[ 1 , 2 ]".to_vec());
        },
        _ => panic!("expected a produce message"),
    }
}

#[test]
fn parse_consume_reads_producer_id() {
    let text = r#"{"action":"consume","producerId":"00000000-0000-0000-0000-0000000000ff"}"#;
    match parse_client_message(text) {
        ParseOutcome::Message(ClientMessage::Consume { producer_id }) => {
            assert_eq!(producer_id, ProducerId(0xff));
        },
        _ => panic!("expected a consume message"),
    }
}

#[test]
fn parse_consumer_resume_reads_id_with_uppercase_digits() {
    let text = r#"{"action":"consumerResume","id":"00000000-0000-0000-0000-00000000DEAD"}"#;
    match parse_client_message(text) {
        ParseOutcome::Message(ClientMessage::ConsumerResume { id }) => {
            assert_eq!(id, ConsumerId(0xdead));
        },
        _ => panic!("expected a resume message"),
    }
}

#[test]
fn parse_connect_transports() {
    let t1 = r#"{"action":"connectProducerTransport","dtlsParameters":{"role":"client"}}"#;
    match parse_client_message(t1) {
        ParseOutcome::Message(ClientMessage::ConnectProducerTransport { dtls_parameters }) => {
            assert_eq!(dtls_parameters, br#"{"role":"client"}"#.to_vec());
        },
        _ => panic!("expected a producer connect"),
    }
    let t2 = r#"{"action":"connectConsumerTransport","dtlsParameters":null}"#;
    match parse_client_message(t2) {
        ParseOutcome::Message(ClientMessage::ConnectConsumerTransport { dtls_parameters }) => {
            assert_eq!(dtls_parameters, b"null".to_vec());
        },
        _ => panic!("expected a consumer connect"),
    }
}

#[test]
fn parse_produce_with_missing_fields_is_a_bad_message() {
    // A well-formed object that is not a valid message earns a warning.
    assert!(matches!(parse_client_message(r#"{"action":"produce"}"#), ParseOutcome::BadMessage));
}

#[test]
fn parse_unknown_action_is_a_bad_message() {
    assert!(matches!(parse_client_message(r#"{"action":"dance"}"#), ParseOutcome::BadMessage));
}

#[test]
fn parse_bad_uuid_is_a_bad_message() {
    let text = r#"{"action":"consume","producerId":"not-a-uuid"}"#;
    assert!(matches!(parse_client_message(text), ParseOutcome::BadMessage));
}

#[test]
fn parse_non_object_json_is_a_bad_message() {
    assert!(matches!(parse_client_message("[1,2,3]"), ParseOutcome::BadMessage));
    assert!(matches!(parse_client_message("\"hello\""), ParseOutcome::BadMessage));
}

#[test]
fn parse_malformed_json_is_not_json() {
    assert!(matches!(parse_client_message(""), ParseOutcome::NotJson));
    assert!(matches!(parse_client_message("{\"action\""), ParseOutcome::NotJson));
    assert!(matches!(parse_client_message("{\"a\":1} trailing"), ParseOutcome::NotJson));
    assert!(matches!(parse_client_message("{unquoted:1}"), ParseOutcome::NotJson));
}

#[test]
fn serialize_produced_uses_hyphenated_lowercase_id() {
    let json = server_message_to_json(&ServerMessage::Produced { id: ProducerId(0xABC) });
    assert_eq!(json, r#"{"action":"produced","id":"00000000-0000-0000-0000-000000000abc"}"#);
}

#[test]
fn serialize_producer_added_and_removed() {
    let a = ParticipantId(1);
    let p = ProducerId(2);
    let added = server_message_to_json(&ServerMessage::ProducerAdded {
        participant_id: a,
        producer_id: p,
    });
    assert_eq!(
        added,
        "{\"action\":\"producerAdded\",\"participantId\":\"00000000-0000-0000-0000-000000000001\",\"producerId\":\"00000000-0000-0000-0000-000000000002\"}"
    );
    let removed = server_message_to_json(&ServerMessage::ProducerRemoved {
        participant_id: a,
        producer_id: p,
    });
    assert!(removed.starts_with("{\"action\":\"producerRemoved\""));
}

#[test]
fn serialize_connected_transports() {
    assert_eq!(
        server_message_to_json(&ServerMessage::ConnectedProducerTransport),
        r#"{"action":"connectedProducerTransport"}"#
    );
    assert_eq!(
        server_message_to_json(&ServerMessage::ConnectedConsumerTransport),
        r#"{"action":"connectedConsumerTransport"}"#
    );
}

#[test]
fn serialize_warning_has_warning_action() {
    let json = server_message_to_json(&ServerMessage::Warning {
        message: "something odd".to_string(),
    });
    assert_eq!(json, r#"{"action":"warning","message":"something odd"}"#);
}

#[test]
fn serialize_init_splices_blobs_verbatim() {
    let opts = |n: u128| TransportOptions {
        id: TransportId(n),
        dtls_parameters: "{\"role\":\"auto\"}".to_string(),
        ice_parameters: "{}".to_string(),
        ice_candidates: "[]".to_string(),
    };
    let json = server_message_to_json(&ServerMessage::Init {
        room_id: RoomId(7),
        router_rtp_capabilities: "{\"codecs\":[]}".to_string(),
        consumer_transport_options: opts(1),
        producer_transport_options: opts(2),
    });
    assert_eq!(
        json,
        "{\"action\":\"init\",\"roomId\":\"00000000-0000-0000-0000-000000000007\",\
         \"routerRtpCapabilities\":{\"codecs\":[]},\
         \"consumerTransportOptions\":{\"id\":\"00000000-0000-0000-0000-000000000001\",\"dtlsParameters\":{\"role\":\"auto\"},\"iceParameters\":{},\"iceCandidates\":[]},\
         \"producerTransportOptions\":{\"id\":\"00000000-0000-0000-0000-000000000002\",\"dtlsParameters\":{\"role\":\"auto\"},\"iceParameters\":{},\"iceCandidates\":[]}}"
    );
}

#[test]
fn serialize_consumed_carries_all_fields() {
    let json = server_message_to_json(&ServerMessage::Consumed {
        id: ConsumerId(3),
        kind: MediaKind::Audio,
        rtp_parameters: "{\"mid\":\"0\"}".to_string(),
        producer_id: ProducerId(4),
    });
    assert_eq!(
        json,
        "{\"action\":\"consumed\",\"id\":\"00000000-0000-0000-0000-000000000003\",\
         \"kind\":\"audio\",\"rtpParameters\":{\"mid\":\"0\"},\
         \"producerId\":\"00000000-0000-0000-0000-000000000004\"}"
    );
}

#[test]
fn produced_id_echoes_back_through_consume() {
    // A client that echoes a `produced` id in a `consume` names the same
    // producer: the serialized identifier parses back to the same value.
    let id: u128 = 0x0123456789abcdef0011223344556677;
    let json = server_message_to_json(&ServerMessage::Produced { id: ProducerId(id) });
    let uuid_text = &json[r#"{"action":"produced","id":""#.len()..json.len() - 2];
    let consume = format!("{{\"action\":\"consume\",\"producerId\":\"{uuid_text}\"}}");
    match parse_client_message(&consume) {
        ParseOutcome::Message(ClientMessage::Consume { producer_id }) => {
            assert_eq!(producer_id, ProducerId(id));
        },
        _ => panic!("expected a consume message"),
    }
}
