//! Coordination plane of a selective forwarding unit for real-time
//! conferencing: identifier minting, signaling and monitor wire codecs, the
//! participant-session signaling state machine, the room producer graph, the
//! rooms registry, the worker-pool dispatch policy, and the monitor fan-out.
//!
//! All state machines here are pure: network and media-worker I/O live in the
//! surrounding binaries, which feed events in and carry the returned actions
//! out.

pub mod config;
pub mod message;
pub mod monitor_dispatch;
pub mod monitoring;
pub mod participant;
pub mod room;
pub mod rooms_registry;
pub mod router_dispatch;
pub mod signaling;
pub mod text;
pub mod uuids;
pub mod websocket;
pub mod wire;
