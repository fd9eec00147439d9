//! The kinds of WebSocket frame the signaling layer distinguishes. The
//! binary's socket library hands frames over in this shape.

use vstd::prelude::*;

verus! {

/// One WebSocket frame, by kind, with its payload.
#[derive(Debug, Clone)]
pub enum WsMessageKind {
    Ping(Vec<u8>),
    Pong(Vec<u8>),
    Text(String),
    Binary(Vec<u8>),
    Close(Option<(u16, String)>),
}

} // verus!
