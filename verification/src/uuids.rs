//! Opaque 128-bit identifiers for the entities the coordination plane tracks.
//!
//! Each identifier kind is a distinct type wrapping a 128-bit value, so that a
//! room identifier can never be confused with a participant identifier in a
//! signature. Fresh identifiers are minted from a version-4 UUID.

use vstd::prelude::*;

verus! {

/// Relies on `uuid::Uuid::new_v4` and `uuid::Uuid::as_u128`: a randomly
/// generated 128-bit value; nothing is promised of it.
#[verifier::external_body]
fn fresh_bits() -> u128 {
    uuid::Uuid::new_v4().as_u128()
}

/// Identifies one room.
#[derive(Debug, PartialEq, Eq, Structural, Hash, Clone, Copy)]
pub struct RoomId(pub u128);

impl RoomId {
    /// Mints a fresh room identifier.
    pub fn new() -> Self {
        RoomId(fresh_bits())
    }
}

/// Identifies one participant session.
#[derive(Debug, PartialEq, Eq, Structural, Hash, Clone, Copy)]
pub struct ParticipantId(pub u128);

impl ParticipantId {
    /// Mints a fresh participant identifier.
    pub fn new() -> Self {
        ParticipantId(fresh_bits())
    }
}

/// Identifies one monitor connection.
#[derive(Debug, PartialEq, Eq, Structural, Hash, Clone, Copy)]
pub struct MonitorId(pub u128);

impl MonitorId {
    /// Mints a fresh monitor identifier.
    pub fn new() -> Self {
        MonitorId(fresh_bits())
    }
}

/// Identifies one producer (an outbound-from-client media stream).
#[derive(Debug, PartialEq, Eq, Structural, Hash, Clone, Copy)]
pub struct ProducerId(pub u128);

/// Identifies one consumer (an inbound-to-client delivery of a producer).
#[derive(Debug, PartialEq, Eq, Structural, Hash, Clone, Copy)]
pub struct ConsumerId(pub u128);

/// Identifies one WebRTC transport.
#[derive(Debug, PartialEq, Eq, Structural, Hash, Clone, Copy)]
pub struct TransportId(pub u128);

/// Identifies one media worker.
#[derive(Debug, PartialEq, Eq, Structural, Hash, Clone, Copy)]
pub struct WorkerId(pub u128);

} // verus!
