//! The monitor wire codec: a length-framed compact binary encoding of the
//! events the server streams to monitors, and of the requests monitors send
//! back.
//!
//! A frame is a four-byte little-endian body length followed by the body. A
//! body is one tag byte followed by the variant's fields; identifiers are
//! sixteen little-endian bytes. Decoding accepts exactly what encoding
//! produces: the round-trip laws at the end say so.

use vstd::prelude::*;
use vstd::utf8::{encode_utf8, valid_utf8};
use crate::monitoring::{MonitoringEventCategory, MonitorMessage, SFUErrorReturn, SFUEvent};
use crate::uuids::{ParticipantId, RoomId};

verus! {

/// 256 to the `n`.
pub open spec fn pow256(n: nat) -> int
    decreases n,
{
    if n == 0 {
        1
    } else {
        256 * pow256((n - 1) as nat)
    }
}

/// The `n` little-endian bytes of `v`.
pub open spec fn le_bytes(v: int, n: nat) -> Seq<u8>
    decreases n,
{
    if n == 0 {
        Seq::empty()
    } else {
        seq![(v % 256) as u8] + le_bytes(v / 256, (n - 1) as nat)
    }
}

/// The value of a little-endian byte sequence.
pub open spec fn le_val(s: Seq<u8>) -> int
    decreases s.len(),
{
    if s.len() == 0 {
        0
    } else {
        s[0] + 256 * le_val(s.skip(1))
    }
}

/// `le_bytes` always yields `n` bytes.
pub proof fn lemma_le_bytes_len(v: int, n: nat)
    ensures
        le_bytes(v, n).len() == n,
    decreases n,
{
    if n > 0 {
        lemma_le_bytes_len(v / 256, (n - 1) as nat);
    }
}

/// Reading back the little-endian bytes of `v` yields `v`.
pub proof fn lemma_le_roundtrip(v: int, n: nat)
    requires
        0 <= v < pow256(n),
    ensures
        le_val(le_bytes(v, n)) == v,
    decreases n,
{
    if n == 0 {
    } else {
        let lo = v % 256;
        let hi = v / 256;
        assert(hi < pow256((n - 1) as nat)) by (nonlinear_arith)
            requires
                v < pow256(n),
                pow256(n) == 256 * pow256((n - 1) as nat),
                v >= 0,
                hi == v / 256,
        {
        }
        assert(hi >= 0);
        lemma_le_roundtrip(hi, (n - 1) as nat);
        let s = le_bytes(v, n);
        assert(s == seq![lo as u8] + le_bytes(hi, (n - 1) as nat));
        assert(s.len() > 0) by {
            lemma_le_bytes_len(v, n);
        }
        assert(s[0] == lo as u8);
        assert(s.skip(1) =~= le_bytes(hi, (n - 1) as nat));
        assert(le_val(s) == lo + 256 * hi);
        assert(lo + 256 * hi == v) by {
            vstd::arithmetic::div_mod::lemma_fundamental_div_mod(v, 256);
        }
    }
}

/// A little-endian byte sequence's value is bounded by its width.
pub proof fn lemma_le_val_bound(s: Seq<u8>)
    ensures
        0 <= le_val(s) < pow256(s.len() as nat),
    decreases s.len(),
{
    if s.len() == 0 {
    } else {
        lemma_le_val_bound(s.skip(1));
        let rest = le_val(s.skip(1));
        assert(s[0] + 256 * rest < pow256(s.len() as nat)) by (nonlinear_arith)
            requires
                s[0] < 256,
                s[0] >= 0,
                0 <= rest,
                rest < pow256((s.len() - 1) as nat),
                pow256(s.len() as nat) == 256 * pow256((s.len() - 1) as nat),
        {
        }
        assert(s[0] + 256 * rest >= 0) by (nonlinear_arith)
            requires
                s[0] >= 0,
                rest >= 0,
        {
        }
    }
}

/// Writes the `n` little-endian bytes of `v`.
fn u128_le_bytes(v: u128, n: usize) -> (r: Vec<u8>)
    ensures
        r@ == le_bytes(v as int, n as nat),
        r@.len() == n,
    decreases n,
{
    proof {
        lemma_le_bytes_len(v as int, n as nat);
    }
    if n == 0 {
        Vec::new()
    } else {
        let mut r: Vec<u8> = Vec::new();
        r.push((v % 256) as u8);
        let mut rest = u128_le_bytes(v / 256, n - 1);
        r.append(&mut rest);
        proof {
            assert(r@ =~= seq![(v as int % 256) as u8] + le_bytes(v as int / 256, (n - 1) as nat));
        }
        r
    }
}

/// Reads the value of `n` little-endian bytes of `b` starting at `start`.
fn le_bytes_to_u128(b: &Vec<u8>, start: usize, n: usize) -> (r: u128)
    requires
        start + n <= b@.len(),
        n <= 16,
    ensures
        r == le_val(b@.subrange(start as int, start + n)),
    decreases n,
{
    // Anchor the buffer length to a machine integer, so the index
    // arithmetic below stays in bounds.
    let buffer_len = b.len();
    proof {
        assert(buffer_len == b@.len());
        lemma_le_val_bound(b@.subrange(start as int, start + n));
        lemma_pow256_mono(n as nat, 16);
        lemma_pow256_16();
    }
    if n == 0 {
        proof {
            assert(b@.subrange(start as int, start as int).len() == 0);
        }
        0
    } else {
        let lo = b[start];
        let hi = le_bytes_to_u128(b, start + 1, n - 1);
        proof {
            let s = b@.subrange(start as int, start + n);
            assert(s[0] == b@[start as int]);
            assert(s.skip(1) =~= b@.subrange(start + 1, start + 1 + (n - 1)));
            lemma_le_val_bound(s);
            lemma_le_val_bound(s.skip(1));
            lemma_pow256_mono((n - 1) as nat, 15);
            lemma_pow256_16();
            assert(lo + 256 * le_val(s.skip(1)) < pow256(16)) by (nonlinear_arith)
                requires
                    lo < 256,
                    lo >= 0,
                    0 <= le_val(s.skip(1)),
                    le_val(s.skip(1)) <= pow256(15) - 1,
                    pow256(16) == 256 * pow256(15),
            {
            }
        }
        lo as u128 + 256 * hi
    }
}

/// The body bytes of one event.
pub open spec fn spec_encode_event(e: SFUEvent) -> Seq<u8> {
    match e {
        SFUEvent::MonitorAccepted => seq![0u8],
        SFUEvent::ServerStarted => seq![1u8],
        SFUEvent::ServerClosed => seq![2u8],
        SFUEvent::RoomOpened { id } => seq![3u8] + le_bytes(id.0 as int, 16),
        SFUEvent::RoomClosed { id } => seq![4u8] + le_bytes(id.0 as int, 16),
        SFUEvent::ParticipantEntered { room_id, participant_id } => seq![5u8] + le_bytes(
            room_id.0 as int,
            16,
        ) + le_bytes(participant_id.0 as int, 16),
        SFUEvent::ParticipantLeft { room_id, participant_id } => seq![6u8] + le_bytes(
            room_id.0 as int,
            16,
        ) + le_bytes(participant_id.0 as int, 16),
        SFUEvent::Error(SFUErrorReturn::UnreadableMessage) => seq![7u8, 0u8],
    }
}

/// The event a body decodes to: exactly the well-formed bodies decode.
pub open spec fn spec_decode_event(b: Seq<u8>) -> Option<SFUEvent> {
    if b.len() == 0 {
        None
    } else if b[0] == 0 && b.len() == 1 {
        Some(SFUEvent::MonitorAccepted)
    } else if b[0] == 1 && b.len() == 1 {
        Some(SFUEvent::ServerStarted)
    } else if b[0] == 2 && b.len() == 1 {
        Some(SFUEvent::ServerClosed)
    } else if b[0] == 3 && b.len() == 17 {
        Some(SFUEvent::RoomOpened { id: RoomId(le_val(b.subrange(1, 17)) as u128) })
    } else if b[0] == 4 && b.len() == 17 {
        Some(SFUEvent::RoomClosed { id: RoomId(le_val(b.subrange(1, 17)) as u128) })
    } else if b[0] == 5 && b.len() == 33 {
        Some(
            SFUEvent::ParticipantEntered {
                room_id: RoomId(le_val(b.subrange(1, 17)) as u128),
                participant_id: ParticipantId(le_val(b.subrange(17, 33)) as u128),
            },
        )
    } else if b[0] == 6 && b.len() == 33 {
        Some(
            SFUEvent::ParticipantLeft {
                room_id: RoomId(le_val(b.subrange(1, 17)) as u128),
                participant_id: ParticipantId(le_val(b.subrange(17, 33)) as u128),
            },
        )
    } else if b[0] == 7 && b.len() == 2 && b[1] == 0 {
        Some(SFUEvent::Error(SFUErrorReturn::UnreadableMessage))
    } else {
        None
    }
}

/// Encodes one event's body.
pub fn encode_event(e: &SFUEvent) -> (r: Vec<u8>)
    ensures
        r@ == spec_encode_event(*e),
{
    let mut r: Vec<u8> = Vec::new();
    match e {
        SFUEvent::MonitorAccepted => {
            r.push(0);
            proof {
                assert(r@ =~= spec_encode_event(*e));
            }
        },
        SFUEvent::ServerStarted => {
            r.push(1);
            proof {
                assert(r@ =~= spec_encode_event(*e));
            }
        },
        SFUEvent::ServerClosed => {
            r.push(2);
            proof {
                assert(r@ =~= spec_encode_event(*e));
            }
        },
        SFUEvent::RoomOpened { id } => {
            r.push(3);
            let mut bytes = u128_le_bytes(id.0, 16);
            r.append(&mut bytes);
            proof {
                assert(r@ =~= spec_encode_event(*e));
            }
        },
        SFUEvent::RoomClosed { id } => {
            r.push(4);
            let mut bytes = u128_le_bytes(id.0, 16);
            r.append(&mut bytes);
            proof {
                assert(r@ =~= spec_encode_event(*e));
            }
        },
        SFUEvent::ParticipantEntered { room_id, participant_id } => {
            r.push(5);
            let mut bytes = u128_le_bytes(room_id.0, 16);
            r.append(&mut bytes);
            let mut bytes2 = u128_le_bytes(participant_id.0, 16);
            r.append(&mut bytes2);
            proof {
                assert(r@ =~= spec_encode_event(*e));
            }
        },
        SFUEvent::ParticipantLeft { room_id, participant_id } => {
            r.push(6);
            let mut bytes = u128_le_bytes(room_id.0, 16);
            r.append(&mut bytes);
            let mut bytes2 = u128_le_bytes(participant_id.0, 16);
            r.append(&mut bytes2);
            proof {
                assert(r@ =~= spec_encode_event(*e));
            }
        },
        SFUEvent::Error(SFUErrorReturn::UnreadableMessage) => {
            r.push(7);
            r.push(0);
            proof {
                assert(r@ =~= spec_encode_event(*e));
            }
        },
    }
    r
}

/// Decodes one event's body.
pub fn decode_event(b: &Vec<u8>) -> (r: Option<SFUEvent>)
    ensures
        r == spec_decode_event(b@),
{
    let n = b.len();
    if n == 0 {
        return None;
    }
    let tag = b[0];
    if tag == 0 && n == 1 {
        Some(SFUEvent::MonitorAccepted)
    } else if tag == 1 && n == 1 {
        Some(SFUEvent::ServerStarted)
    } else if tag == 2 && n == 1 {
        Some(SFUEvent::ServerClosed)
    } else if tag == 3 && n == 17 {
        Some(SFUEvent::RoomOpened { id: RoomId(le_bytes_to_u128(b, 1, 16)) })
    } else if tag == 4 && n == 17 {
        Some(SFUEvent::RoomClosed { id: RoomId(le_bytes_to_u128(b, 1, 16)) })
    } else if tag == 5 && n == 33 {
        Some(
            SFUEvent::ParticipantEntered {
                room_id: RoomId(le_bytes_to_u128(b, 1, 16)),
                participant_id: ParticipantId(le_bytes_to_u128(b, 17, 16)),
            },
        )
    } else if tag == 6 && n == 33 {
        Some(
            SFUEvent::ParticipantLeft {
                room_id: RoomId(le_bytes_to_u128(b, 1, 16)),
                participant_id: ParticipantId(le_bytes_to_u128(b, 17, 16)),
            },
        )
    } else if tag == 7 && n == 2 && b[1] == 0 {
        Some(SFUEvent::Error(SFUErrorReturn::UnreadableMessage))
    } else {
        None
    }
}

/// An identifier's sixteen bytes read back to the identifier.
proof fn lemma_id_roundtrip(v: u128)
    ensures
        le_val(le_bytes(v as int, 16)) == v,
        le_bytes(v as int, 16).len() == 16,
{
    lemma_pow256_16();
    lemma_le_roundtrip(v as int, 16);
    lemma_le_bytes_len(v as int, 16);
}

/// Law (round trip): every event's body decodes back to the event.
pub proof fn lemma_event_roundtrip(e: SFUEvent)
    ensures
        spec_decode_event(spec_encode_event(e)) == Some(e),
{
    let b = spec_encode_event(e);
    match e {
        SFUEvent::MonitorAccepted => {},
        SFUEvent::ServerStarted => {},
        SFUEvent::ServerClosed => {},
        SFUEvent::RoomOpened { id } => {
            lemma_id_roundtrip(id.0);
            assert(b.subrange(1, 17) =~= le_bytes(id.0 as int, 16));
        },
        SFUEvent::RoomClosed { id } => {
            lemma_id_roundtrip(id.0);
            assert(b.subrange(1, 17) =~= le_bytes(id.0 as int, 16));
        },
        SFUEvent::ParticipantEntered { room_id, participant_id } => {
            lemma_id_roundtrip(room_id.0);
            lemma_id_roundtrip(participant_id.0);
            assert(b.subrange(1, 17) =~= le_bytes(room_id.0 as int, 16));
            assert(b.subrange(17, 33) =~= le_bytes(participant_id.0 as int, 16));
        },
        SFUEvent::ParticipantLeft { room_id, participant_id } => {
            lemma_id_roundtrip(room_id.0);
            lemma_id_roundtrip(participant_id.0);
            assert(b.subrange(1, 17) =~= le_bytes(room_id.0 as int, 16));
            assert(b.subrange(17, 33) =~= le_bytes(participant_id.0 as int, 16));
        },
        SFUEvent::Error(SFUErrorReturn::UnreadableMessage) => {},
    }
}

/// Every event body fits its one-tag-plus-fields shape.
pub proof fn lemma_event_body_len(e: SFUEvent)
    ensures
        1 <= spec_encode_event(e).len() <= 33,
{
    match e {
        SFUEvent::RoomOpened { id } => lemma_le_bytes_len(id.0 as int, 16),
        SFUEvent::RoomClosed { id } => lemma_le_bytes_len(id.0 as int, 16),
        SFUEvent::ParticipantEntered { room_id, participant_id } => {
            lemma_le_bytes_len(room_id.0 as int, 16);
            lemma_le_bytes_len(participant_id.0 as int, 16);
        },
        SFUEvent::ParticipantLeft { room_id, participant_id } => {
            lemma_le_bytes_len(room_id.0 as int, 16);
            lemma_le_bytes_len(participant_id.0 as int, 16);
        },
        _ => {},
    }
}

/// One event as a frame on the wire: the body length in four little-endian
/// bytes, then the body.
pub open spec fn spec_encode_frame(e: SFUEvent) -> Seq<u8> {
    le_bytes(spec_encode_event(e).len() as int, 4) + spec_encode_event(e)
}

/// What decoding one frame at `start` of a stream yields: the event and the
/// position after the frame, when a whole well-formed frame is there.
pub open spec fn spec_decode_frame(buf: Seq<u8>, start: int) -> Option<(SFUEvent, int)> {
    if !(0 <= start && start + 4 <= buf.len()) {
        None
    } else {
        let l = le_val(buf.subrange(start, start + 4));
        if start + 4 + l > buf.len() {
            None
        } else {
            match spec_decode_event(buf.subrange(start + 4, start + 4 + l)) {
                Some(e) => Some((e, start + 4 + l)),
                None => None,
            }
        }
    }
}

/// Encodes one event as a length-framed record.
pub fn encode_event_frame(e: &SFUEvent) -> (r: Vec<u8>)
    ensures
        r@ == spec_encode_frame(*e),
{
    let body = encode_event(e);
    proof {
        lemma_event_body_len(*e);
    }
    let mut r = u128_le_bytes(body.len() as u128, 4);
    let mut body = body;
    r.append(&mut body);
    proof {
        assert(r@ =~= spec_encode_frame(*e));
    }
    r
}

/// Decodes the frame at `start` of a receive buffer; the returned position is
/// where the next frame starts.
pub fn decode_event_frame(buf: &Vec<u8>, start: usize) -> (r: Option<(SFUEvent, usize)>)
    requires
        start <= buf@.len(),
    ensures
        match r {
            Some((e, end)) => spec_decode_frame(buf@, start as int) == Some((e, end as int)),
            None => spec_decode_frame(buf@, start as int) is None,
        },
{
    let n = buf.len();
    if n - start < 4 {
        return None;
    }
    let l128 = le_bytes_to_u128(buf, start, 4);
    proof {
        lemma_le_val_bound(buf@.subrange(start as int, start + 4));
        lemma_pow256_16();
        lemma_pow256_mono(4, 16);
        lemma_pow256_16();
    }
    if l128 > (n - (start + 4)) as u128 {
        return None;
    }
    let l = l128 as usize;
    // Copy the body out of the receive buffer.
    let mut body: Vec<u8> = Vec::new();
    let mut k: usize = 0;
    while k < l
        invariant
            0 <= k <= l,
            start + 4 + l <= n,
            n == buf@.len(),
            body@ =~= buf@.subrange(start + 4, start + 4 + k),
        decreases l - k,
    {
        body.push(buf[start + 4 + k]);
        proof {
            assert(body@ =~= buf@.subrange(start + 4, start + 4 + k + 1));
        }
        k += 1;
    }
    match decode_event(&body) {
        Some(e) => Some((e, start + 4 + l)),
        None => None,
    }
}

/// Law (framing round trip): a stream that begins with an event's frame
/// decodes to that event, consuming exactly the frame, whatever follows.
pub proof fn lemma_frame_roundtrip(e: SFUEvent, tail: Seq<u8>)
    ensures
        spec_decode_frame(spec_encode_frame(e) + tail, 0) == Some(
            (e, spec_encode_frame(e).len() as int),
        ),
{
    let body = spec_encode_event(e);
    let frame = spec_encode_frame(e);
    let buf = frame + tail;
    lemma_event_body_len(e);
    lemma_le_bytes_len(body.len() as int, 4);
    assert(buf.subrange(0, 4) =~= le_bytes(body.len() as int, 4));
    lemma_pow256_16();
    lemma_le_roundtrip(body.len() as int, 4);
    assert(le_val(buf.subrange(0, 4)) == body.len());
    assert(buf.subrange(4, 4 + body.len() as int) =~= body);
    lemma_event_roundtrip(e);
}

/// Relies on `String::from_utf8`: it returns the string of exactly the given
/// bytes when they are valid UTF-8, and an error otherwise.
#[verifier::external_body]
fn string_from_utf8(v: Vec<u8>) -> (r: Option<String>)
    ensures
        r is Some <==> valid_utf8(v@),
        r matches Some(s) ==> encode_utf8(s@) == v@,
{
    String::from_utf8(v).ok()
}

/// The bytes of one monitor request.
pub open spec fn spec_encode_monitor_message(m: MonitorMessage) -> Seq<u8> {
    match m {
        MonitorMessage::Greeting(s) => seq![0u8] + le_bytes(encode_utf8(s@).len() as int, 4)
            + encode_utf8(s@),
        MonitorMessage::SwitchCategory(MonitoringEventCategory::Global) => seq![1u8, 0u8],
        MonitorMessage::SwitchCategory(MonitoringEventCategory::Room(id)) => seq![1u8, 1u8]
            + le_bytes(id.0 as int, 16),
    }
}

/// Encodes one monitor request.
pub fn encode_monitor_message(m: &MonitorMessage) -> (r: Vec<u8>)
    requires
        m matches MonitorMessage::Greeting(s) ==> encode_utf8(s@).len() < 0x1_0000_0000,
    ensures
        r@ == spec_encode_monitor_message(*m),
{
    let mut r: Vec<u8> = Vec::new();
    match m {
        MonitorMessage::Greeting(s) => {
            r.push(0);
            let mut payload = s.as_str().as_bytes_vec();
            let mut len_bytes = u128_le_bytes(payload.len() as u128, 4);
            r.append(&mut len_bytes);
            r.append(&mut payload);
            proof {
                assert(r@ =~= spec_encode_monitor_message(*m));
            }
        },
        MonitorMessage::SwitchCategory(MonitoringEventCategory::Global) => {
            r.push(1);
            r.push(0);
            proof {
                assert(r@ =~= spec_encode_monitor_message(*m));
            }
        },
        MonitorMessage::SwitchCategory(MonitoringEventCategory::Room(id)) => {
            r.push(1);
            r.push(1);
            let mut bytes = u128_le_bytes(id.0, 16);
            r.append(&mut bytes);
            proof {
                assert(r@ =~= spec_encode_monitor_message(*m));
            }
        },
    }
    r
}

/// Whether monitor-request bytes are well formed: a greeting whose length
/// field covers exactly the rest, which must be UTF-8, or a category switch.
pub open spec fn spec_monitor_message_ok(b: Seq<u8>) -> bool {
    if b.len() < 1 {
        false
    } else if b[0] == 0 {
        &&& b.len() >= 5
        &&& le_val(b.subrange(1, 5)) == b.len() - 5
        &&& valid_utf8(b.skip(5))
    } else if b[0] == 1 {
        ||| (b.len() == 2 && b[1] == 0)
        ||| (b.len() == 18 && b[1] == 1)
    } else {
        false
    }
}

/// Decodes one monitor request: exactly the well-formed byte strings decode,
/// and what they decode to is pinned below; anything else is unreadable and
/// answered with an error event.
pub fn decode_monitor_message(b: &Vec<u8>) -> (r: Option<MonitorMessage>)
    ensures
        r is Some <==> spec_monitor_message_ok(b@),
        r matches Some(MonitorMessage::Greeting(s)) ==> b@.len() >= 5 && b@[0] == 0
            && encode_utf8(s@) == b@.skip(5),
        r matches Some(MonitorMessage::SwitchCategory(c)) ==> b@[0] == 1 && match c {
            MonitoringEventCategory::Global => b@.len() == 2 && b@[1] == 0,
            MonitoringEventCategory::Room(id) => b@.len() == 18 && b@[1] == 1 && id.0
                == le_val(b@.subrange(2, 18)),
        },
{
    let n = b.len();
    if n < 1 {
        return None;
    }
    let tag = b[0];
    if tag == 0 {
        if n < 5 {
            return None;
        }
        let l128 = le_bytes_to_u128(b, 1, 4);
        proof {
            lemma_le_val_bound(b@.subrange(1, 5));
            lemma_pow256_16();
        }
        if l128 != (n - 5) as u128 {
            return None;
        }
        // Copy the payload and validate it as text.
        let mut payload: Vec<u8> = Vec::new();
        let mut k: usize = 5;
        while k < n
            invariant
                5 <= k <= n,
                n == b@.len(),
                payload@ =~= b@.subrange(5, k as int),
            decreases n - k,
        {
            payload.push(b[k]);
            proof {
                assert(payload@ =~= b@.subrange(5, k + 1int));
            }
            k += 1;
        }
        proof {
            assert(payload@ =~= b@.skip(5));
        }
        match string_from_utf8(payload) {
            Some(s) => Some(MonitorMessage::Greeting(s)),
            None => None,
        }
    } else if tag == 1 {
        if n == 2 && b[1] == 0 {
            Some(MonitorMessage::SwitchCategory(MonitoringEventCategory::Global))
        } else if n == 18 && b[1] == 1 {
            let id = le_bytes_to_u128(b, 2, 16);
            Some(MonitorMessage::SwitchCategory(MonitoringEventCategory::Room(RoomId(id))))
        } else {
            None
        }
    } else {
        None
    }
}

/// Law (request round trip): every monitor request's encoding is well formed
/// and carries exactly the request's content — a decoded greeting has the
/// sender's text, a decoded switch the sender's category.
pub proof fn lemma_monitor_message_roundtrip(m: MonitorMessage)
    requires
        m matches MonitorMessage::Greeting(s) ==> encode_utf8(s@).len() < 0x1_0000_0000,
    ensures
        spec_monitor_message_ok(spec_encode_monitor_message(m)),
        m matches MonitorMessage::Greeting(s) ==> spec_encode_monitor_message(m).skip(5)
            == encode_utf8(s@),
        m matches MonitorMessage::SwitchCategory(MonitoringEventCategory::Room(id))
            ==> le_val(spec_encode_monitor_message(m).subrange(2, 18)) == id.0,
{
    let b = spec_encode_monitor_message(m);
    match m {
        MonitorMessage::Greeting(s) => {
            let payload = encode_utf8(s@);
            lemma_le_bytes_len(payload.len() as int, 4);
            assert(b.subrange(1, 5) =~= le_bytes(payload.len() as int, 4));
            lemma_pow256_16();
            lemma_le_roundtrip(payload.len() as int, 4);
            assert(b.skip(5) =~= payload);
            broadcast use vstd::utf8::encode_utf8_valid_utf8;

        },
        MonitorMessage::SwitchCategory(MonitoringEventCategory::Global) => {},
        MonitorMessage::SwitchCategory(MonitoringEventCategory::Room(id)) => {
            lemma_id_roundtrip(id.0);
            assert(b.subrange(2, 18) =~= le_bytes(id.0 as int, 16));
        },
    }
}

/// The values of `pow256` up to sixteen bytes.
pub proof fn lemma_pow256_16()
    ensures
        pow256(4) == 0x1_0000_0000,
        pow256(15) == 0x100_0000_0000_0000_0000_0000_0000_0000,
        pow256(16) == 0x1_0000_0000_0000_0000_0000_0000_0000_0000,
{
    assert(pow256(0) == 1);
    assert(pow256(1) == 0x100);
    assert(pow256(2) == 0x10000);
    assert(pow256(3) == 0x1000000);
    assert(pow256(4) == 0x100000000);
    assert(pow256(5) == 0x10000000000);
    assert(pow256(6) == 0x1000000000000);
    assert(pow256(7) == 0x100000000000000);
    assert(pow256(8) == 0x10000000000000000);
    assert(pow256(9) == 0x1000000000000000000);
    assert(pow256(10) == 0x100000000000000000000);
    assert(pow256(11) == 0x10000000000000000000000);
    assert(pow256(12) == 0x1000000000000000000000000);
    assert(pow256(13) == 0x100000000000000000000000000);
    assert(pow256(14) == 0x10000000000000000000000000000);
    assert(pow256(15) == 0x1000000000000000000000000000000);
    assert(pow256(16) == 0x100000000000000000000000000000000);
}

/// `pow256` grows with the exponent.
pub proof fn lemma_pow256_mono(a: nat, b: nat)
    requires
        a <= b,
    ensures
        pow256(a) <= pow256(b),
        pow256(a) >= 1,
    decreases b,
{
    if a == b {
        lemma_pow256_pos(a);
    } else {
        lemma_pow256_mono(a, (b - 1) as nat);
    }
}

/// `pow256` is positive.
pub proof fn lemma_pow256_pos(n: nat)
    ensures
        pow256(n) >= 1,
    decreases n,
{
    if n > 0 {
        lemma_pow256_pos((n - 1) as nat);
    }
}

} // verus!
