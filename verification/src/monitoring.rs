//! Events the server publishes to out-of-band monitor processes, the
//! categories a monitor can subscribe to, and the subscription filter.

use vstd::prelude::*;
use crate::uuids::{ParticipantId, RoomId};

verus! {

/// The fixed TCP port on which the server accepts monitor connections.
pub const SFU_PORT: u16 = 12346;

/// The kind of events a monitor subscribes to.
#[derive(Debug, PartialEq, Eq, Structural, Clone, Copy)]
pub enum MonitoringEventCategory {
    /// Server-wide lifecycle events.
    Global,
    /// Participant traffic of one room.
    Room(RoomId),
}

/// A message sent by a monitor to the server.
#[derive(Debug, Clone)]
pub enum MonitorMessage {
    Greeting(String),
    SwitchCategory(MonitoringEventCategory),
}

/// Errors sent back to a monitor when one of its requests went wrong.
#[derive(Debug, PartialEq, Eq, Structural, Clone, Copy)]
pub enum SFUErrorReturn {
    /// The monitor sent bytes that do not decode to a valid `MonitorMessage`.
    UnreadableMessage,
}

/// An event sent by the server to a monitor process.
#[derive(Debug, PartialEq, Eq, Structural, Clone, Copy)]
pub enum SFUEvent {
    /// A new monitor connection was accepted.
    MonitorAccepted,
    ServerStarted,
    ServerClosed,
    RoomOpened { id: RoomId },
    RoomClosed { id: RoomId },
    ParticipantEntered { room_id: RoomId, participant_id: ParticipantId },
    ParticipantLeft { room_id: RoomId, participant_id: ParticipantId },
    Error(SFUErrorReturn),
}

/// Messages a monitor process sends while handshaking the server.
#[derive(Debug, Clone)]
pub enum MonitorHandshakeMessage {
    /// A greeting that may later carry data restricting access to the server.
    Greeting { greet: String },
    Identification { key: String },
}

/// Messages the server sends back during a handshake.
#[derive(Debug, PartialEq, Eq, Structural, Clone, Copy)]
pub enum SFUHandshakeMessage {
    Greeting { ssl_mode: bool },
    Accepted,
}

/// Which events a subscription category lets through.
///
/// `Global` matches the server-wide lifecycle events; `Room(r)` matches the
/// participant traffic of room `r` and nothing else. Error replies are
/// addressed to a single monitor directly and pass no category.
pub open spec fn category_matches(category: MonitoringEventCategory, evt: SFUEvent) -> bool {
    match category {
        MonitoringEventCategory::Global => match evt {
            SFUEvent::MonitorAccepted => true,
            SFUEvent::ServerStarted => true,
            SFUEvent::ServerClosed => true,
            SFUEvent::RoomOpened { .. } => true,
            SFUEvent::RoomClosed { .. } => true,
            _ => false,
        },
        MonitoringEventCategory::Room(listening_room_id) => match evt {
            SFUEvent::ParticipantEntered { room_id, .. } => room_id == listening_room_id,
            SFUEvent::ParticipantLeft { room_id, .. } => room_id == listening_room_id,
            _ => false,
        },
    }
}

/// Decides whether an event is of interest under a subscription category.
pub fn is_interested_in(category: MonitoringEventCategory, evt: &SFUEvent) -> (r: bool)
    ensures
        r == category_matches(category, *evt),
{
    match category {
        MonitoringEventCategory::Global => match evt {
            SFUEvent::MonitorAccepted => true,
            SFUEvent::ServerStarted => true,
            SFUEvent::ServerClosed => true,
            SFUEvent::RoomOpened { .. } => true,
            SFUEvent::RoomClosed { .. } => true,
            _ => false,
        },
        MonitoringEventCategory::Room(listening_room_id) => match evt {
            SFUEvent::ParticipantEntered { room_id, .. } => *room_id == listening_room_id,
            SFUEvent::ParticipantLeft { room_id, .. } => *room_id == listening_room_id,
            _ => false,
        },
    }
}

} // verus!
