//! The signaling messages exchanged with a client, and the internal message
//! union a session's outbound pump consumes.
//!
//! Capability, parameter and candidate payloads are opaque blobs the media
//! worker interprets: the coordination plane carries them through unchanged.
//! Inbound blobs arrive as the raw bytes the client sent; outbound blobs are
//! the JSON text the media worker produced.

use vstd::prelude::*;
use crate::router_dispatch::MediaKind;
use crate::uuids::{ConsumerId, ParticipantId, ProducerId, RoomId, TransportId};
use crate::websocket::WsMessageKind;

verus! {

/// A signaling message a client sends to the server.
#[derive(Debug, Clone)]
pub enum ClientMessage {
    /// Announces the client's RTP capabilities; required before `Consume`.
    Init { rtp_capabilities: Vec<u8> },
    /// Completes DTLS on the producer transport.
    ConnectProducerTransport { dtls_parameters: Vec<u8> },
    /// Completes DTLS on the consumer transport.
    ConnectConsumerTransport { dtls_parameters: Vec<u8> },
    /// Publishes a media stream on the producer transport.
    Produce { kind: MediaKind, rtp_parameters: Vec<u8> },
    /// Asks to receive a producer on the consumer transport.
    Consume { producer_id: ProducerId },
    /// Unpauses a consumer created by `Consume`.
    ConsumerResume { id: ConsumerId },
}

/// What a client needs to connect to one WebRTC transport.
#[derive(Debug, Clone)]
pub struct TransportOptions {
    pub id: TransportId,
    pub dtls_parameters: String,
    pub ice_parameters: String,
    /// A JSON array of candidates.
    pub ice_candidates: String,
}

/// A signaling message the server sends to a client.
#[derive(Debug, Clone)]
pub enum ServerMessage {
    /// The session is ready: the room, the router's capabilities and both
    /// transports.
    Init {
        room_id: RoomId,
        router_rtp_capabilities: String,
        consumer_transport_options: TransportOptions,
        producer_transport_options: TransportOptions,
    },
    ConnectedConsumerTransport,
    ConnectedProducerTransport,
    ProducerAdded { participant_id: ParticipantId, producer_id: ProducerId },
    ProducerRemoved { participant_id: ParticipantId, producer_id: ProducerId },
    Produced { id: ProducerId },
    Consumed {
        id: ConsumerId,
        kind: MediaKind,
        rtp_parameters: String,
        producer_id: ProducerId,
    },
    Warning { message: String },
}

/// Messages between a session's tasks that never reach the client.
#[derive(Debug, PartialEq, Eq, Structural, Clone, Copy)]
pub enum Internal {
    Close,
}

/// Everything a session's outbound pump can be asked to handle.
#[derive(Debug, Clone)]
pub enum Message {
    WebSocket(WsMessageKind),
    Internal(Internal),
    Server(ServerMessage),
}

impl From<Internal> for Message {
    fn from(msg: Internal) -> (r: Message) {
        Message::Internal(msg)
    }
}

impl vstd::std_specs::convert::FromSpecImpl<Internal> for Message {
    open spec fn obeys_from_spec() -> bool {
        true
    }

    open spec fn from_spec(msg: Internal) -> Message {
        Message::Internal(msg)
    }
}

impl From<WsMessageKind> for Message {
    fn from(msg: WsMessageKind) -> (r: Message) {
        Message::WebSocket(msg)
    }
}

impl vstd::std_specs::convert::FromSpecImpl<WsMessageKind> for Message {
    open spec fn obeys_from_spec() -> bool {
        true
    }

    open spec fn from_spec(msg: WsMessageKind) -> Message {
        Message::WebSocket(msg)
    }
}

impl From<ServerMessage> for Message {
    fn from(msg: ServerMessage) -> (r: Message) {
        Message::Server(msg)
    }
}

impl vstd::std_specs::convert::FromSpecImpl<ServerMessage> for Message {
    open spec fn obeys_from_spec() -> bool {
        true
    }

    open spec fn from_spec(msg: ServerMessage) -> Message {
        Message::Server(msg)
    }
}

} // verus!
