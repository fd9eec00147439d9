//! The participant-session signaling state machine.
//!
//! A session owns the WebSocket conversation with one client. Every decision
//! — which reply a client message gets, when a media-worker operation is
//! started, when the connection closes — is a pure step here; the binary's
//! tasks feed frames and operation results in and carry the returned actions
//! out.
//!
//! The machine is mirrored by spec functions over an abstract session model;
//! each handler's contract says it refines its mirror, and the temporal laws
//! (no `Consumed` before `Init`, idempotent transport connects) are proved
//! over the mirror.

use vstd::prelude::*;
use crate::message::{ClientMessage, ServerMessage};
use crate::router_dispatch::MediaKind;
use crate::uuids::{ConsumerId, ParticipantId, ProducerId, RoomId};

verus! {

/// How many consecutive errors on one half of the socket close the session.
pub const SESSION_ERRORS_BEFORE_CLOSING: u32 = 3;

/// A media-worker operation the session has started and not yet seen the
/// result of; signaling messages are handled one at a time, so at most one is
/// outstanding.
#[derive(Debug, PartialEq, Eq, Structural, Clone, Copy)]
pub enum PendingWorkerOp {
    Produce,
    Consume,
}

/// The session's coordination state.
pub struct SessionState {
    pub id: ParticipantId,
    pub room_id: RoomId,
    /// Whether the client has announced its RTP capabilities with `Init`;
    /// the capability blob itself is cached by the binary.
    pub has_client_rtp_capabilities: bool,
    /// The consumers created for this client, in creation order.
    pub consumers: Vec<ConsumerId>,
    /// The producers this client published, in publication order.
    pub producers: Vec<ProducerId>,
    pub pending: Option<PendingWorkerOp>,
    /// Consecutive receive errors; a successfully received frame resets it.
    pub recv_error_count: u32,
    /// Consecutive send errors; a successful send resets it.
    pub send_error_count: u32,
    pub closed: bool,
}

/// The abstract session model the contracts and laws speak of.
pub struct SessionModel {
    pub has_caps: bool,
    pub pending: Option<PendingWorkerOp>,
    pub consumers: Seq<ConsumerId>,
    pub producers: Seq<ProducerId>,
    pub recv_errors: int,
    pub send_errors: int,
    pub closed: bool,
}

impl SessionState {
    /// The session's abstract model.
    pub open spec fn model(self) -> SessionModel {
        SessionModel {
            has_caps: self.has_client_rtp_capabilities,
            pending: self.pending,
            consumers: self.consumers@,
            producers: self.producers@,
            recv_errors: self.recv_error_count as int,
            send_errors: self.send_error_count as int,
            closed: self.closed,
        }
    }
}

/// A fresh session's model.
pub open spec fn initial_model() -> SessionModel {
    SessionModel {
        has_caps: false,
        pending: None,
        consumers: Seq::empty(),
        producers: Seq::empty(),
        recv_errors: 0,
        send_errors: 0,
        closed: false,
    }
}

/// Opens the session state for a participant in a room.
pub fn session_new(id: ParticipantId, room_id: RoomId) -> (r: SessionState)
    ensures
        r.id == id,
        r.room_id == room_id,
        r.model() == initial_model(),
{
    let r = SessionState {
        id,
        room_id,
        has_client_rtp_capabilities: false,
        consumers: Vec::new(),
        producers: Vec::new(),
        pending: None,
        recv_error_count: 0,
        send_error_count: 0,
        closed: false,
    };
    proof {
        assert(r.model().consumers =~= initial_model().consumers);
        assert(r.model().producers =~= initial_model().producers);
        assert(r.model() == initial_model());
    }
    r
}

/// What a session asks its surroundings to do after one step.
#[derive(Debug, Clone)]
pub enum SessionAction {
    /// Remember the client's capability blob for later `Consume` calls.
    CacheClientRtpCapabilities { rtp_capabilities: Vec<u8> },
    /// Complete DTLS on the producer transport.
    ConnectProducerTransport { dtls_parameters: Vec<u8> },
    /// Complete DTLS on the consumer transport.
    ConnectConsumerTransport { dtls_parameters: Vec<u8> },
    /// Create a producer on the producer transport; the result comes back
    /// through [`apply_produce_result`].
    ProduceOnWorker { kind: MediaKind, rtp_parameters: Vec<u8> },
    /// Create a paused consumer on the consumer transport, against the cached
    /// capabilities; the result comes back through [`apply_consume_result`].
    ConsumeOnWorker { producer_id: ProducerId },
    /// Resume a consumer; a failure is only logged, so no result comes back.
    ResumeConsumer { id: ConsumerId },
    /// Publish a fresh producer to the room.
    PublishProducer { producer_id: ProducerId },
    /// Send a signaling message to this client.
    Reply(ServerMessage),
    /// Answer a ping with a pong carrying the same payload.
    ReplyPong(Vec<u8>),
    /// Close the WebSocket.
    CloseConnection,
}

/// The payload-free shape of an action, for the abstract machine.
#[derive(Debug, PartialEq, Eq, Structural, Clone, Copy)]
pub enum OutputTag {
    CacheCaps,
    WorkerConnectProducer,
    WorkerConnectConsumer,
    WorkerProduce,
    WorkerConsume(ProducerId),
    WorkerResume(ConsumerId),
    Publish(ProducerId),
    ReplyInit,
    ReplyConnectedProducer,
    ReplyConnectedConsumer,
    ReplyProduced(ProducerId),
    ReplyConsumed(ConsumerId),
    ReplyProducerAdded,
    ReplyProducerRemoved,
    ReplyWarning,
    ReplyPong,
    Close,
}

/// The tag of one action.
pub open spec fn action_tag(a: SessionAction) -> OutputTag {
    match a {
        SessionAction::CacheClientRtpCapabilities { .. } => OutputTag::CacheCaps,
        SessionAction::ConnectProducerTransport { .. } => OutputTag::WorkerConnectProducer,
        SessionAction::ConnectConsumerTransport { .. } => OutputTag::WorkerConnectConsumer,
        SessionAction::ProduceOnWorker { .. } => OutputTag::WorkerProduce,
        SessionAction::ConsumeOnWorker { producer_id } => OutputTag::WorkerConsume(producer_id),
        SessionAction::ResumeConsumer { id } => OutputTag::WorkerResume(id),
        SessionAction::PublishProducer { producer_id } => OutputTag::Publish(producer_id),
        SessionAction::Reply(m) => match m {
            ServerMessage::Init { .. } => OutputTag::ReplyInit,
            ServerMessage::ConnectedConsumerTransport => OutputTag::ReplyConnectedConsumer,
            ServerMessage::ConnectedProducerTransport => OutputTag::ReplyConnectedProducer,
            ServerMessage::ProducerAdded { .. } => OutputTag::ReplyProducerAdded,
            ServerMessage::ProducerRemoved { .. } => OutputTag::ReplyProducerRemoved,
            ServerMessage::Produced { id } => OutputTag::ReplyProduced(id),
            ServerMessage::Consumed { id, .. } => OutputTag::ReplyConsumed(id),
            ServerMessage::Warning { .. } => OutputTag::ReplyWarning,
        },
        SessionAction::ReplyPong(_) => OutputTag::ReplyPong,
        SessionAction::CloseConnection => OutputTag::Close,
    }
}

/// The tags of a sequence of actions, in order.
pub open spec fn tags_of(s: Seq<SessionAction>) -> Seq<OutputTag>
    decreases s.len(),
{
    if s.len() == 0 {
        Seq::empty()
    } else {
        tags_of(s.drop_last()).push(action_tag(s.last()))
    }
}

/// The payload-free shape of a client message.
#[derive(Debug, PartialEq, Eq, Structural, Clone, Copy)]
pub enum MsgKind {
    Init,
    ConnectProducer,
    ConnectConsumer,
    Produce,
    Consume(ProducerId),
    Resume(ConsumerId),
}

/// The shape of a client message.
pub open spec fn msg_kind_of(msg: ClientMessage) -> MsgKind {
    match msg {
        ClientMessage::Init { .. } => MsgKind::Init,
        ClientMessage::ConnectProducerTransport { .. } => MsgKind::ConnectProducer,
        ClientMessage::ConnectConsumerTransport { .. } => MsgKind::ConnectConsumer,
        ClientMessage::Produce { .. } => MsgKind::Produce,
        ClientMessage::Consume { producer_id } => MsgKind::Consume(producer_id),
        ClientMessage::ConsumerResume { id } => MsgKind::Resume(id),
    }
}

/// The abstract machine's handling of one client message.
pub open spec fn spec_handle_client_message(m: SessionModel, k: MsgKind) -> (
    SessionModel,
    Seq<OutputTag>,
) {
    match k {
        MsgKind::Init => (
            SessionModel { has_caps: true, ..m },
            seq![OutputTag::CacheCaps],
        ),
        MsgKind::ConnectProducer => (
            m,
            seq![OutputTag::WorkerConnectProducer, OutputTag::ReplyConnectedProducer],
        ),
        MsgKind::ConnectConsumer => (
            m,
            seq![OutputTag::WorkerConnectConsumer, OutputTag::ReplyConnectedConsumer],
        ),
        MsgKind::Produce => (
            SessionModel { pending: Some(PendingWorkerOp::Produce), ..m },
            seq![OutputTag::WorkerProduce],
        ),
        MsgKind::Consume(producer_id) => if m.has_caps {
            (
                SessionModel { pending: Some(PendingWorkerOp::Consume), ..m },
                seq![OutputTag::WorkerConsume(producer_id)],
            )
        } else {
            (m, seq![OutputTag::ReplyWarning])
        },
        MsgKind::Resume(id) => if m.consumers.contains(id) {
            (m, seq![OutputTag::WorkerResume(id)])
        } else {
            (m, seq![OutputTag::ReplyWarning])
        },
    }
}

/// The abstract machine's handling of a produce result. A result can only
/// arrive while a produce is pending; on any other state it changes nothing.
pub open spec fn spec_apply_produce_result(m: SessionModel, ok: bool, id: ProducerId) -> (
    SessionModel,
    Seq<OutputTag>,
) {
    if m.pending != Some(PendingWorkerOp::Produce) {
        (m, Seq::empty())
    } else if ok {
        (
            SessionModel { pending: None, producers: m.producers.push(id), ..m },
            seq![OutputTag::Publish(id), OutputTag::ReplyProduced(id)],
        )
    } else {
        (SessionModel { pending: None, ..m }, seq![OutputTag::ReplyWarning])
    }
}

/// The abstract machine's handling of a consume result. A result can only
/// arrive while a consume is pending; on any other state it changes nothing.
pub open spec fn spec_apply_consume_result(m: SessionModel, ok: bool, id: ConsumerId) -> (
    SessionModel,
    Seq<OutputTag>,
) {
    if m.pending != Some(PendingWorkerOp::Consume) {
        (m, Seq::empty())
    } else if ok {
        (
            SessionModel { pending: None, consumers: m.consumers.push(id), ..m },
            seq![OutputTag::ReplyConsumed(id)],
        )
    } else {
        (SessionModel { pending: None, ..m }, seq![OutputTag::ReplyWarning])
    }
}

/// The abstract machine's bookkeeping of one receive error: the third
/// consecutive one closes the connection.
pub open spec fn spec_on_recv_error(m: SessionModel) -> (SessionModel, Seq<OutputTag>) {
    let c = m.recv_errors + 1;
    if c >= SESSION_ERRORS_BEFORE_CLOSING {
        (SessionModel { recv_errors: c, closed: true, ..m }, seq![OutputTag::Close])
    } else {
        (SessionModel { recv_errors: c, ..m }, Seq::empty())
    }
}

/// The abstract machine's bookkeeping of one send outcome: success clears the
/// streak, the third consecutive failure closes the connection.
pub open spec fn spec_on_send_result(m: SessionModel, ok: bool) -> (SessionModel, Seq<OutputTag>) {
    if ok {
        (SessionModel { send_errors: 0, ..m }, Seq::empty())
    } else {
        let c = m.send_errors + 1;
        if c >= SESSION_ERRORS_BEFORE_CLOSING {
            (SessionModel { send_errors: c, closed: true, ..m }, seq![OutputTag::Close])
        } else {
            (SessionModel { send_errors: c, ..m }, Seq::empty())
        }
    }
}

/// The abstract machine's reaction to the room's fatal error: close the
/// WebSocket.
pub open spec fn spec_on_room_fatal_error(m: SessionModel) -> (SessionModel, Seq<OutputTag>) {
    (SessionModel { closed: true, ..m }, seq![OutputTag::Close])
}

/// A one-action sequence carries its action's tag.
pub proof fn lemma_tags_one(a: SessionAction)
    ensures
        tags_of(seq![a]) =~= seq![action_tag(a)],
{
    let e = Seq::<SessionAction>::empty();
    assert(seq![a].drop_last() =~= e);
    assert(tags_of(e) =~= Seq::<OutputTag>::empty());
    assert(seq![a].last() == a);
    assert(tags_of(seq![a]) == tags_of(e).push(action_tag(a)));
}

/// A two-action sequence carries its actions' tags in order.
pub proof fn lemma_tags_two(a: SessionAction, b: SessionAction)
    ensures
        tags_of(seq![a, b]) =~= seq![action_tag(a), action_tag(b)],
{
    assert(seq![a, b].drop_last() =~= seq![a]);
    lemma_tags_one(a);
}

/// Handles one parsed signaling message: caches capabilities on `Init`,
/// starts the matching worker operation, answers transport connects, and
/// turns a `Consume` without prior `Init` or an unknown consumer id into a
/// warning. Messages are handled one at a time, after the previous worker
/// operation's result was applied.
pub fn handle_client_message(state: &mut SessionState, msg: ClientMessage) -> (out: Vec<
    SessionAction,
>)
    requires
        old(state).pending is None,
    ensures
        final(state).id == old(state).id,
        final(state).room_id == old(state).room_id,
        final(state).model() == spec_handle_client_message(
            old(state).model(),
            msg_kind_of(msg),
        ).0,
        tags_of(out@) == spec_handle_client_message(old(state).model(), msg_kind_of(msg)).1,
        msg matches ClientMessage::Init { rtp_capabilities } ==> out@ =~= seq![
            SessionAction::CacheClientRtpCapabilities { rtp_capabilities },
        ],
        msg matches ClientMessage::ConnectProducerTransport { dtls_parameters } ==> out@ =~= seq![
            SessionAction::ConnectProducerTransport { dtls_parameters },
            SessionAction::Reply(ServerMessage::ConnectedProducerTransport),
        ],
        msg matches ClientMessage::ConnectConsumerTransport { dtls_parameters } ==> out@ =~= seq![
            SessionAction::ConnectConsumerTransport { dtls_parameters },
            SessionAction::Reply(ServerMessage::ConnectedConsumerTransport),
        ],
        msg matches ClientMessage::Produce { kind, rtp_parameters } ==> out@ =~= seq![
            SessionAction::ProduceOnWorker { kind, rtp_parameters },
        ],
        msg matches ClientMessage::Consume { producer_id } ==> {
            &&& old(state).has_client_rtp_capabilities ==> out@ =~= seq![
                SessionAction::ConsumeOnWorker { producer_id },
            ]
            &&& !old(state).has_client_rtp_capabilities ==> out@.len() == 1 && (out@[0]
                matches SessionAction::Reply(ServerMessage::Warning { message })
                && message@ == "You must send your RTP capabilities through an Init message before being able to consume"@)
        },
        msg matches ClientMessage::ConsumerResume { id } ==> {
            &&& old(state).consumers@.contains(id) ==> out@ =~= seq![
                SessionAction::ResumeConsumer { id },
            ]
            &&& !old(state).consumers@.contains(id) ==> out@.len() == 1 && (out@[0]
                matches SessionAction::Reply(ServerMessage::Warning { message })
                && message@ == "No consumer found for the provided id !"@)
        },
{
    let mut out: Vec<SessionAction> = Vec::new();
    match msg {
        ClientMessage::Init { rtp_capabilities } => {
            state.has_client_rtp_capabilities = true;
            out.push(SessionAction::CacheClientRtpCapabilities { rtp_capabilities });
            proof {
                lemma_tags_one(out@[0]);
                assert(out@ =~= seq![out@[0]]);
            }
        },
        ClientMessage::ConnectProducerTransport { dtls_parameters } => {
            out.push(SessionAction::ConnectProducerTransport { dtls_parameters });
            out.push(SessionAction::Reply(ServerMessage::ConnectedProducerTransport));
            proof {
                lemma_tags_two(out@[0], out@[1]);
                assert(out@ =~= seq![out@[0], out@[1]]);
            }
        },
        ClientMessage::ConnectConsumerTransport { dtls_parameters } => {
            out.push(SessionAction::ConnectConsumerTransport { dtls_parameters });
            out.push(SessionAction::Reply(ServerMessage::ConnectedConsumerTransport));
            proof {
                lemma_tags_two(out@[0], out@[1]);
                assert(out@ =~= seq![out@[0], out@[1]]);
            }
        },
        ClientMessage::Produce { kind, rtp_parameters } => {
            state.pending = Some(PendingWorkerOp::Produce);
            out.push(SessionAction::ProduceOnWorker { kind, rtp_parameters });
            proof {
                lemma_tags_one(out@[0]);
                assert(out@ =~= seq![out@[0]]);
            }
        },
        ClientMessage::Consume { producer_id } => {
            if state.has_client_rtp_capabilities {
                state.pending = Some(PendingWorkerOp::Consume);
                out.push(SessionAction::ConsumeOnWorker { producer_id });
            } else {
                out.push(
                    SessionAction::Reply(
                        ServerMessage::Warning {
                            message: String::from_str(
                                "You must send your RTP capabilities through an Init message before being able to consume",
                            ),
                        },
                    ),
                );
            }
            proof {
                lemma_tags_one(out@[0]);
                assert(out@ =~= seq![out@[0]]);
            }
        },
        ClientMessage::ConsumerResume { id } => {
            if contains_consumer(&state.consumers, id) {
                out.push(SessionAction::ResumeConsumer { id });
            } else {
                out.push(
                    SessionAction::Reply(
                        ServerMessage::Warning {
                            message: String::from_str("No consumer found for the provided id !"),
                        },
                    ),
                );
            }
            proof {
                lemma_tags_one(out@[0]);
                assert(out@ =~= seq![out@[0]]);
            }
        },
    }
    out
}

/// Whether `id` is among the session's consumers.
fn contains_consumer(consumers: &Vec<ConsumerId>, id: ConsumerId) -> (r: bool)
    ensures
        r == consumers@.contains(id),
{
    let n = consumers.len();
    let mut i: usize = 0;
    while i < n
        invariant
            0 <= i <= n,
            n == consumers@.len(),
            forall|j: int| 0 <= j < i ==> consumers@[j] != id,
        decreases n - i,
    {
        if consumers[i].0 == id.0 {
            return true;
        }
        i += 1;
    }
    false
}

/// Applies the worker's answer to a pending produce: on success the producer
/// is recorded, published to the room and confirmed to the client; on failure
/// the client gets a warning.
pub fn apply_produce_result(state: &mut SessionState, result: Option<ProducerId>) -> (out: Vec<
    SessionAction,
>)
    requires
        old(state).pending == Some(PendingWorkerOp::Produce),
    ensures
        final(state).id == old(state).id,
        final(state).room_id == old(state).room_id,
        result matches Some(id) ==> {
            &&& final(state).model() == spec_apply_produce_result(old(state).model(), true, id).0
            &&& tags_of(out@) == spec_apply_produce_result(old(state).model(), true, id).1
            &&& out@ =~= seq![
                SessionAction::PublishProducer { producer_id: id },
                SessionAction::Reply(ServerMessage::Produced { id }),
            ]
        },
        result is None ==> {
            &&& final(state).model() == spec_apply_produce_result(
                old(state).model(),
                false,
                ProducerId(0),
            ).0
            &&& tags_of(out@) == spec_apply_produce_result(
                old(state).model(),
                false,
                ProducerId(0),
            ).1
            &&& out@.len() == 1
            &&& (out@[0] matches SessionAction::Reply(ServerMessage::Warning { message })
                && message@ == "Failed to produce, an unexpected error occured."@)
        },
{
    let mut out: Vec<SessionAction> = Vec::new();
    state.pending = None;
    match result {
        Some(id) => {
            state.producers.push(id);
            out.push(SessionAction::PublishProducer { producer_id: id });
            out.push(SessionAction::Reply(ServerMessage::Produced { id }));
            proof {
                lemma_tags_two(out@[0], out@[1]);
                assert(out@ =~= seq![out@[0], out@[1]]);
            }
        },
        None => {
            out.push(
                SessionAction::Reply(
                    ServerMessage::Warning {
                        message: String::from_str(
                            "Failed to produce, an unexpected error occured.",
                        ),
                    },
                ),
            );
            proof {
                lemma_tags_one(out@[0]);
                assert(out@ =~= seq![out@[0]]);
            }
        },
    }
    out
}

/// What the worker hands back for a successful consume.
#[derive(Debug, Clone)]
pub struct ConsumerInfo {
    pub id: ConsumerId,
    pub kind: MediaKind,
    pub rtp_parameters: String,
    pub producer_id: ProducerId,
}

/// Applies the worker's answer to a pending consume: on success the consumer
/// — created paused — is recorded and described to the client; on failure the
/// client gets a warning.
pub fn apply_consume_result(state: &mut SessionState, result: Option<ConsumerInfo>) -> (out: Vec<
    SessionAction,
>)
    requires
        old(state).pending == Some(PendingWorkerOp::Consume),
    ensures
        final(state).id == old(state).id,
        final(state).room_id == old(state).room_id,
        result matches Some(info) ==> {
            &&& final(state).model() == spec_apply_consume_result(
                old(state).model(),
                true,
                info.id,
            ).0
            &&& tags_of(out@) == spec_apply_consume_result(old(state).model(), true, info.id).1
            &&& out@ =~= seq![
                SessionAction::Reply(
                    ServerMessage::Consumed {
                        id: info.id,
                        kind: info.kind,
                        rtp_parameters: info.rtp_parameters,
                        producer_id: info.producer_id,
                    },
                ),
            ]
        },
        result is None ==> {
            &&& final(state).model() == spec_apply_consume_result(
                old(state).model(),
                false,
                ConsumerId(0),
            ).0
            &&& tags_of(out@) == spec_apply_consume_result(
                old(state).model(),
                false,
                ConsumerId(0),
            ).1
            &&& out@.len() == 1
            &&& (out@[0] matches SessionAction::Reply(ServerMessage::Warning { message })
                && message@ == "Failed to consume producer, an unexpected error occured."@)
        },
{
    let mut out: Vec<SessionAction> = Vec::new();
    state.pending = None;
    match result {
        Some(info) => {
            state.consumers.push(info.id);
            out.push(
                SessionAction::Reply(
                    ServerMessage::Consumed {
                        id: info.id,
                        kind: info.kind,
                        rtp_parameters: info.rtp_parameters,
                        producer_id: info.producer_id,
                    },
                ),
            );
            proof {
                lemma_tags_one(out@[0]);
                assert(out@ =~= seq![out@[0]]);
            }
        },
        None => {
            out.push(
                SessionAction::Reply(
                    ServerMessage::Warning {
                        message: String::from_str(
                            "Failed to consume producer, an unexpected error occured.",
                        ),
                    },
                ),
            );
            proof {
                lemma_tags_one(out@[0]);
                assert(out@ =~= seq![out@[0]]);
            }
        },
    }
    out
}

/// Books one failed read from the WebSocket: transient errors are tolerated,
/// the third consecutive one closes the connection.
pub fn on_recv_error(state: &mut SessionState) -> (out: Vec<SessionAction>)
    requires
        old(state).recv_error_count < u32::MAX,
    ensures
        final(state).id == old(state).id,
        final(state).room_id == old(state).room_id,
        final(state).model() == spec_on_recv_error(old(state).model()).0,
        tags_of(out@) == spec_on_recv_error(old(state).model()).1,
{
    state.recv_error_count = state.recv_error_count + 1;
    let mut out: Vec<SessionAction> = Vec::new();
    if state.recv_error_count >= SESSION_ERRORS_BEFORE_CLOSING {
        state.closed = true;
        out.push(SessionAction::CloseConnection);
        proof {
            lemma_tags_one(out@[0]);
            assert(out@ =~= seq![out@[0]]);
        }
    } else {
        proof {
            assert(tags_of(out@) =~= Seq::<OutputTag>::empty());
        }
    }
    out
}

/// Books the outcome of one write to the WebSocket: a success clears the
/// streak, the third consecutive failure closes the connection.
pub fn on_send_result(state: &mut SessionState, ok: bool) -> (out: Vec<SessionAction>)
    requires
        old(state).send_error_count < u32::MAX,
    ensures
        final(state).id == old(state).id,
        final(state).room_id == old(state).room_id,
        final(state).model() == spec_on_send_result(old(state).model(), ok).0,
        tags_of(out@) == spec_on_send_result(old(state).model(), ok).1,
{
    let mut out: Vec<SessionAction> = Vec::new();
    if ok {
        state.send_error_count = 0;
        proof {
            assert(tags_of(out@) =~= Seq::<OutputTag>::empty());
        }
    } else {
        state.send_error_count = state.send_error_count + 1;
        if state.send_error_count >= SESSION_ERRORS_BEFORE_CLOSING {
            state.closed = true;
            out.push(SessionAction::CloseConnection);
            proof {
                lemma_tags_one(out@[0]);
                assert(out@ =~= seq![out@[0]]);
            }
        } else {
            proof {
                assert(tags_of(out@) =~= Seq::<OutputTag>::empty());
            }
        }
    }
    out
}

/// The room raised its fatal error — its worker died: close the WebSocket.
pub fn on_room_fatal_error(state: &mut SessionState) -> (out: Vec<SessionAction>)
    ensures
        final(state).id == old(state).id,
        final(state).room_id == old(state).room_id,
        final(state).model() == spec_on_room_fatal_error(old(state).model()).0,
        tags_of(out@) == spec_on_room_fatal_error(old(state).model()).1,
{
    state.closed = true;
    let mut out: Vec<SessionAction> = Vec::new();
    out.push(SessionAction::CloseConnection);
    proof {
        lemma_tags_one(out@[0]);
        assert(out@ =~= seq![out@[0]]);
    }
    out
}

/// The message a session sends its client when a peer's producer is added:
/// peers are told, the publishing session itself is not.
pub fn peer_producer_added(
    own_id: ParticipantId,
    participant_id: ParticipantId,
    producer_id: ProducerId,
) -> (r: Option<ServerMessage>)
    ensures
        participant_id == own_id ==> r is None,
        participant_id != own_id ==> r == Some(
            ServerMessage::ProducerAdded { participant_id, producer_id },
        ),
{
    if participant_id.0 == own_id.0 {
        None
    } else {
        Some(ServerMessage::ProducerAdded { participant_id, producer_id })
    }
}

/// The message a session sends its client when a peer's producer is removed.
pub fn peer_producer_removed(
    own_id: ParticipantId,
    participant_id: ParticipantId,
    producer_id: ProducerId,
) -> (r: Option<ServerMessage>)
    ensures
        participant_id == own_id ==> r is None,
        participant_id != own_id ==> r == Some(
            ServerMessage::ProducerRemoved { participant_id, producer_id },
        ),
{
    if participant_id.0 == own_id.0 {
        None
    } else {
        Some(ServerMessage::ProducerRemoved { participant_id, producer_id })
    }
}

/// The `ProducerAdded` messages a session with `own_id` gets for a snapshot
/// of `(participant, producer)` pairs: one per pair of another participant,
/// in snapshot order.
pub open spec fn peer_added_messages(
    pairs: Seq<(ParticipantId, ProducerId)>,
    own_id: ParticipantId,
) -> Seq<ServerMessage>
    decreases pairs.len(),
{
    if pairs.len() == 0 {
        Seq::empty()
    } else {
        peer_added_messages(pairs.drop_last(), own_id) + if pairs.last().0 != own_id {
            seq![
                ServerMessage::ProducerAdded {
                    participant_id: pairs.last().0,
                    producer_id: pairs.last().1,
                },
            ]
        } else {
            Seq::empty()
        }
    }
}

/// The messages a freshly connected session enqueues before pumping the
/// socket: the `Init` description of the room and both transports, then one
/// `ProducerAdded` per existing producer of the other participants, in
/// snapshot order.
pub fn initial_session_messages(
    own_id: ParticipantId,
    room_id: RoomId,
    router_rtp_capabilities: String,
    consumer_transport_options: crate::message::TransportOptions,
    producer_transport_options: crate::message::TransportOptions,
    existing: &Vec<(ParticipantId, ProducerId)>,
) -> (r: Vec<ServerMessage>)
    ensures
        r@.len() >= 1,
        r@[0] == (ServerMessage::Init {
            room_id,
            router_rtp_capabilities,
            consumer_transport_options,
            producer_transport_options,
        }),
        r@.skip(1) == peer_added_messages(existing@, own_id),
{
    let mut r: Vec<ServerMessage> = Vec::new();
    r.push(
        ServerMessage::Init {
            room_id,
            router_rtp_capabilities,
            consumer_transport_options,
            producer_transport_options,
        },
    );
    let n = existing.len();
    let mut i: usize = 0;
    while i < n
        invariant
            0 <= i <= n,
            n == existing@.len(),
            r@.len() >= 1,
            r@[0] == (ServerMessage::Init {
                room_id,
                router_rtp_capabilities,
                consumer_transport_options,
                producer_transport_options,
            }),
            r@.skip(1) =~= peer_added_messages(existing@.take(i as int), own_id),
        decreases n - i,
    {
        let (participant_id, producer_id) = existing[i];
        if participant_id.0 != own_id.0 {
            r.push(ServerMessage::ProducerAdded { participant_id, producer_id });
        }
        proof {
            assert(existing@.take(i + 1int).drop_last() =~= existing@.take(i as int));
            assert(existing@.take(i + 1int).last() == existing@[i as int]);
        }
        i += 1;
    }
    proof {
        assert(existing@.take(n as int) =~= existing@);
    }
    r
}

/// The parse outcome of a text frame, by shape.
#[derive(Debug, PartialEq, Eq, Structural, Clone, Copy)]
pub enum ParsedShape {
    Valid(MsgKind),
    Bad,
    NotJson,
}

/// One received WebSocket frame, by shape.
#[derive(Debug, PartialEq, Eq, Structural, Clone, Copy)]
pub enum FrameShape {
    Ping,
    Pong,
    Binary,
    CloseFrame,
    Text(ParsedShape),
}

/// The shape of a received frame: text frames carry their parse outcome.
pub open spec fn frame_shape_of(frame: crate::websocket::WsMessageKind) -> FrameShape {
    match frame {
        crate::websocket::WsMessageKind::Ping(_) => FrameShape::Ping,
        crate::websocket::WsMessageKind::Pong(_) => FrameShape::Pong,
        crate::websocket::WsMessageKind::Binary(_) => FrameShape::Binary,
        crate::websocket::WsMessageKind::Close(_) => FrameShape::CloseFrame,
        crate::websocket::WsMessageKind::Text(t) => FrameShape::Text(
            match crate::signaling::spec_parse_signal(t@) {
                crate::signaling::SpecSignal::NotJson => ParsedShape::NotJson,
                crate::signaling::SpecSignal::Bad => ParsedShape::Bad,
                crate::signaling::SpecSignal::Init { .. } => ParsedShape::Valid(MsgKind::Init),
                crate::signaling::SpecSignal::ConnectProducer { .. } => ParsedShape::Valid(
                    MsgKind::ConnectProducer,
                ),
                crate::signaling::SpecSignal::ConnectConsumer { .. } => ParsedShape::Valid(
                    MsgKind::ConnectConsumer,
                ),
                crate::signaling::SpecSignal::Produce { .. } => ParsedShape::Valid(
                    MsgKind::Produce,
                ),
                crate::signaling::SpecSignal::Consume { producer } => ParsedShape::Valid(
                    MsgKind::Consume(ProducerId(producer)),
                ),
                crate::signaling::SpecSignal::Resume { id } => ParsedShape::Valid(
                    MsgKind::Resume(ConsumerId(id)),
                ),
            },
        ),
    }
}

/// The abstract machine's handling of one received frame: receiving anything
/// clears the receive-error streak; a ping is answered with a pong, a binary
/// frame and an invalid message with a warning, a close frame closes, text
/// that is not JSON is only logged, and a valid message is handled.
pub open spec fn spec_handle_frame(m: SessionModel, f: FrameShape) -> (
    SessionModel,
    Seq<OutputTag>,
) {
    let m0 = SessionModel { recv_errors: 0, ..m };
    match f {
        FrameShape::Ping => (m0, seq![OutputTag::ReplyPong]),
        FrameShape::Pong => (m0, Seq::empty()),
        FrameShape::Binary => (m0, seq![OutputTag::ReplyWarning]),
        FrameShape::CloseFrame => (
            SessionModel { closed: true, ..m0 },
            seq![OutputTag::Close],
        ),
        FrameShape::Text(ParsedShape::NotJson) => (m0, Seq::empty()),
        FrameShape::Text(ParsedShape::Bad) => (m0, seq![OutputTag::ReplyWarning]),
        FrameShape::Text(ParsedShape::Valid(k)) => spec_handle_client_message(m0, k),
    }
}

/// One input to the abstract session machine.
#[derive(Debug, PartialEq, Eq, Structural, Clone, Copy)]
pub enum SessionInput {
    /// A received WebSocket frame, by shape.
    Frame(FrameShape),
    /// A successfully parsed signaling message, by shape.
    Message(MsgKind),
    ProduceResult { ok: bool, id: ProducerId },
    ConsumeResult { ok: bool, id: ConsumerId },
    RecvError,
    SendResult { ok: bool },
    RoomFatal,
}

/// One step of the abstract session machine.
pub open spec fn session_step(m: SessionModel, input: SessionInput) -> (
    SessionModel,
    Seq<OutputTag>,
) {
    match input {
        SessionInput::Frame(f) => spec_handle_frame(m, f),
        SessionInput::Message(k) => spec_handle_client_message(m, k),
        SessionInput::ProduceResult { ok, id } => spec_apply_produce_result(m, ok, id),
        SessionInput::ConsumeResult { ok, id } => spec_apply_consume_result(m, ok, id),
        SessionInput::RecvError => spec_on_recv_error(m),
        SessionInput::SendResult { ok } => spec_on_send_result(m, ok),
        SessionInput::RoomFatal => spec_on_room_fatal_error(m),
    }
}

/// Whether an input carries an `Init` message.
pub open spec fn is_init_input(input: SessionInput) -> bool {
    ||| input == SessionInput::Message(MsgKind::Init)
    ||| input == SessionInput::Frame(FrameShape::Text(ParsedShape::Valid(MsgKind::Init)))
}

/// The model after the machine has consumed a whole input sequence.
pub open spec fn session_run(m: SessionModel, inputs: Seq<SessionInput>) -> SessionModel
    decreases inputs.len(),
{
    if inputs.len() == 0 {
        m
    } else {
        session_step(session_run(m, inputs.drop_last()), inputs.last()).0
    }
}

/// Whether some output of a step confirms a consumer to the client.
pub open spec fn emits_consumed(outs: Seq<OutputTag>) -> bool {
    exists|j: int| 0 <= j < outs.len() && (#[trigger] outs[j]) matches OutputTag::ReplyConsumed(_)
}

/// On a run that never saw `Init`, the session neither holds capabilities nor
/// has a consume in flight.
proof fn lemma_init_free_invariant(inputs: Seq<SessionInput>)
    requires
        forall|i: int| 0 <= i < inputs.len() ==> !is_init_input(#[trigger] inputs[i]),
    ensures
        !session_run(initial_model(), inputs).has_caps,
        session_run(initial_model(), inputs).pending != Some(PendingWorkerOp::Consume),
    decreases inputs.len(),
{
    if inputs.len() > 0 {
        assert forall|i: int| 0 <= i < inputs.drop_last().len() implies !is_init_input(
            #[trigger] inputs.drop_last()[i],
        ) by {
            assert(inputs.drop_last()[i] == inputs[i]);
        }
        lemma_init_free_invariant(inputs.drop_last());
        assert(!is_init_input(inputs.last()));
    }
}

/// Law: a session never sends `Consumed` before it has received `Init` with
/// the client's RTP capabilities — on any input sequence without an `Init`
/// message so far, no step's outputs confirm a consumer.
pub proof fn lemma_no_consumed_before_init(inputs: Seq<SessionInput>, k: int)
    requires
        0 <= k < inputs.len(),
        forall|i: int| 0 <= i <= k ==> !is_init_input(#[trigger] inputs[i]),
    ensures
        !emits_consumed(
            session_step(session_run(initial_model(), inputs.take(k)), inputs[k]).1,
        ),
{
    let m = session_run(initial_model(), inputs.take(k));
    assert forall|i: int| 0 <= i < inputs.take(k).len() implies !is_init_input(
        #[trigger] inputs.take(k)[i],
    ) by {
        assert(inputs.take(k)[i] == inputs[i]);
    }
    lemma_init_free_invariant(inputs.take(k));
    let (m2, outs) = session_step(m, inputs[k]);
    assert(!is_init_input(inputs[k]));
    assert forall|j: int| 0 <= j < outs.len()
        implies !((#[trigger] outs[j]) matches OutputTag::ReplyConsumed(_)) by {
        match inputs[k] {
            SessionInput::Message(kind) => {
                assert(kind != MsgKind::Init);
            },
            SessionInput::Frame(f) => {
                match f {
                    FrameShape::Text(ParsedShape::Valid(kind)) => {
                        assert(kind != MsgKind::Init);
                    },
                    _ => {},
                }
            },
            _ => {},
        }
    }
}

/// Handles one received WebSocket frame: answers a ping with a pong carrying
/// the identical payload, logs a pong, warns on a binary frame, closes on a
/// close frame, and parses a text frame — malformed JSON is only logged, a
/// JSON value that is no valid message is warned about, a valid message is
/// handled.
pub fn handle_frame(state: &mut SessionState, frame: crate::websocket::WsMessageKind) -> (out:
    Vec<SessionAction>)
    requires
        old(state).pending is None,
        frame matches crate::websocket::WsMessageKind::Text(t) ==> t@.len() < usize::MAX,
    ensures
        final(state).id == old(state).id,
        final(state).room_id == old(state).room_id,
        final(state).model() == spec_handle_frame(old(state).model(), frame_shape_of(frame)).0,
        tags_of(out@) == spec_handle_frame(old(state).model(), frame_shape_of(frame)).1,
        frame matches crate::websocket::WsMessageKind::Ping(data) ==> out@ =~= seq![
            SessionAction::ReplyPong(data),
        ],
        frame matches crate::websocket::WsMessageKind::Binary(_) ==> out@.len() == 1 && (out@[0]
            matches SessionAction::Reply(ServerMessage::Warning { message })
            && message@ == "Received binary data. Binary messages are not handled by the server. Please provide data in an expected JSON format"@),
        (frame matches crate::websocket::WsMessageKind::Text(t)
            && crate::signaling::spec_parse_signal(t@) == crate::signaling::SpecSignal::Bad)
            ==> out@.len() == 1 && (out@[0] matches SessionAction::Reply(
            ServerMessage::Warning { message },
        ) && message@ == "Could not interpret the message as a valid signaling request"@),
        frame matches crate::websocket::WsMessageKind::Text(t) ==> (
        crate::signaling::spec_parse_signal(t@) matches crate::signaling::SpecSignal::Init {
            lo,
            hi,
        } ==> out@.len() == 1 && (out@[0] matches SessionAction::CacheClientRtpCapabilities {
            rtp_capabilities,
        } && rtp_capabilities@ == vstd::utf8::encode_utf8(t@.subrange(lo, hi)))),
{
    state.recv_error_count = 0;
    match frame {
        crate::websocket::WsMessageKind::Ping(data) => {
            let mut out: Vec<SessionAction> = Vec::new();
            out.push(SessionAction::ReplyPong(data));
            proof {
                lemma_tags_one(out@[0]);
                assert(out@ =~= seq![out@[0]]);
            }
            out
        },
        crate::websocket::WsMessageKind::Pong(_) => {
            let out: Vec<SessionAction> = Vec::new();
            proof {
                assert(tags_of(out@) =~= Seq::<OutputTag>::empty());
            }
            out
        },
        crate::websocket::WsMessageKind::Binary(_) => {
            let mut out: Vec<SessionAction> = Vec::new();
            out.push(
                SessionAction::Reply(
                    ServerMessage::Warning {
                        message: String::from_str(
                            "Received binary data. Binary messages are not handled by the server. Please provide data in an expected JSON format",
                        ),
                    },
                ),
            );
            proof {
                lemma_tags_one(out@[0]);
                assert(out@ =~= seq![out@[0]]);
            }
            out
        },
        crate::websocket::WsMessageKind::Close(_) => {
            state.closed = true;
            let mut out: Vec<SessionAction> = Vec::new();
            out.push(SessionAction::CloseConnection);
            proof {
                lemma_tags_one(out@[0]);
                assert(out@ =~= seq![out@[0]]);
            }
            out
        },
        crate::websocket::WsMessageKind::Text(t) => {
            match crate::signaling::parse_client_message(t.as_str()) {
                crate::signaling::ParseOutcome::Message(msg) => handle_client_message(
                    state,
                    msg,
                ),
                crate::signaling::ParseOutcome::BadMessage => {
                    let mut out: Vec<SessionAction> = Vec::new();
                    out.push(
                        SessionAction::Reply(
                            ServerMessage::Warning {
                                message: String::from_str(
                                    "Could not interpret the message as a valid signaling request",
                                ),
                            },
                        ),
                    );
                    proof {
                        lemma_tags_one(out@[0]);
                        assert(out@ =~= seq![out@[0]]);
                    }
                    out
                },
                crate::signaling::ParseOutcome::NotJson => {
                    let out: Vec<SessionAction> = Vec::new();
                    proof {
                        assert(tags_of(out@) =~= Seq::<OutputTag>::empty());
                    }
                    out
                },
            }
        },
    }
}

/// Law: `ConnectProducerTransport` is idempotent — handling it changes no
/// session state, and a redundant call yields exactly one further
/// `ConnectedProducerTransport` with no state divergence.
pub proof fn lemma_connect_producer_idempotent(m: SessionModel)
    ensures
        spec_handle_client_message(m, MsgKind::ConnectProducer).0 == m,
        spec_handle_client_message(
            spec_handle_client_message(m, MsgKind::ConnectProducer).0,
            MsgKind::ConnectProducer,
        ) == spec_handle_client_message(m, MsgKind::ConnectProducer),
        spec_handle_client_message(m, MsgKind::ConnectProducer).1 == seq![
            OutputTag::WorkerConnectProducer,
            OutputTag::ReplyConnectedProducer,
        ],
{
}

/// Law: when participant `a` publishes producer `p`, every other participant
/// subscribed to the room is told exactly once, and `a` itself is not told.
/// The room raises exactly one add notification per publication
/// ([`crate::room::add_producer`]); this law says what each subscriber's
/// filter makes of it.
pub proof fn lemma_peer_notified_exactly_once(
    a: ParticipantId,
    p: ProducerId,
    b: ParticipantId,
)
    ensures
        b != a ==> peer_added_messages(seq![(a, p)], b) =~= seq![
            ServerMessage::ProducerAdded { participant_id: a, producer_id: p },
        ],
        b == a ==> peer_added_messages(seq![(a, p)], b).len() == 0,
{
    let e = Seq::<(ParticipantId, ProducerId)>::empty();
    let s = seq![(a, p)];
    assert(s.drop_last() =~= e);
    assert(peer_added_messages(e, b) =~= Seq::<ServerMessage>::empty());
    assert(s.last() == (a, p));
    assert(peer_added_messages(s, b) == peer_added_messages(e, b) + if s.last().0 != b {
        seq![ServerMessage::ProducerAdded { participant_id: a, producer_id: p }]
    } else {
        Seq::<ServerMessage>::empty()
    });
    if b != a {
        assert(peer_added_messages(s, b) =~= seq![
            ServerMessage::ProducerAdded { participant_id: a, producer_id: p },
        ]);
    } else {
        assert(peer_added_messages(s, b) =~= Seq::<ServerMessage>::empty());
    }
}

} // verus!
