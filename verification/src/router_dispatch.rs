//! The worker-pool dispatch policy: which media worker a new router goes to,
//! when a worker is spawned or released, and the per-worker consumer count.
//!
//! The pool tracks one record per live worker. Spawning the native worker and
//! wiring its callbacks is the binary's work; every decision — spawn or
//! reuse, which worker takes the next router, when a record is dropped — is
//! made here.

use vstd::prelude::*;
use crate::uuids::WorkerId;

verus! {

/// The pool's record of one live media worker.
#[derive(Debug, PartialEq, Eq, Structural, Clone, Copy)]
pub struct WorkerRecord {
    pub id: WorkerId,
    /// Live consumers on this worker, maintained by the consumer-create and
    /// consumer-close callbacks; best effort, not authoritative admission.
    pub consumer_count: u32,
    /// Live routers on this worker; the record is dropped when it reaches
    /// zero.
    pub router_count: u32,
}

/// The worker pool.
pub struct WorkerPool {
    /// One record per live worker, in spawn order.
    pub workers: Vec<WorkerRecord>,
    /// How many workers may exist at once.
    pub max_workers: usize,
    /// Advisory target of consumers per worker.
    pub consumers_per_worker: u32,
}

impl WorkerPool {
    /// Well-formedness: one record per worker.
    pub open spec fn wf(self) -> bool {
        forall|i: int, j: int|
            0 <= i < j < self.workers@.len()
                ==> (#[trigger] self.workers@[i]).id != (#[trigger] self.workers@[j]).id
    }

    /// Whether a record for `id` exists.
    pub open spec fn spec_has_worker(self, id: WorkerId) -> bool {
        exists|i: int| 0 <= i < self.workers@.len() && (#[trigger] self.workers@[i]).id == id
    }

    /// An empty pool for the given sizing.
    pub fn new(max_workers: usize, consumers_per_worker: u32) -> (r: Self)
        ensures
            r.workers@.len() == 0,
            r.max_workers == max_workers,
            r.consumers_per_worker == consumers_per_worker,
            r.wf(),
    {
        WorkerPool { workers: Vec::new(), max_workers, consumers_per_worker }
    }

    /// Whether a record for `id` exists; a caller tests this before
    /// registering a freshly spawned worker.
    pub fn has_worker(&self, id: WorkerId) -> (r: bool)
        ensures
            r == self.spec_has_worker(id),
    {
        let n = self.workers.len();
        let mut i: usize = 0;
        while i < n
            invariant
                0 <= i <= n,
                n == self.workers@.len(),
                forall|j: int| 0 <= j < i ==> (#[trigger] self.workers@[j]).id != id,
            decreases n - i,
        {
            if self.workers[i].id.0 == id.0 {
                return true;
            }
            i += 1;
        }
        false
    }

    /// Whether the pool may still spawn a worker rather than reuse one.
    pub fn below_worker_limit(&self) -> (r: bool)
        ensures
            r == (self.workers@.len() < self.max_workers),
    {
        self.workers.len() < self.max_workers
    }

    /// Records a freshly spawned worker with no routers and no consumers.
    pub fn register_worker(&mut self, id: WorkerId)
        requires
            old(self).wf(),
            !old(self).spec_has_worker(id),
        ensures
            final(self).wf(),
            final(self).max_workers == old(self).max_workers,
            final(self).consumers_per_worker == old(self).consumers_per_worker,
            final(self).workers@ == old(self).workers@.push(
                WorkerRecord { id, consumer_count: 0, router_count: 0 },
            ),
    {
        let ghost old_workers = self.workers@;
        self.workers.push(WorkerRecord { id, consumer_count: 0, router_count: 0 });
        proof {
            assert forall|i: int, j: int| 0 <= i < j < self.workers@.len()
                implies (#[trigger] self.workers@[i]).id != (#[trigger] self.workers@[j]).id by {
                if j == old_workers.len() {
                    assert(self.workers@[i] == old_workers[i]);
                }
            }
        }
    }

    /// Picks the worker the next router goes to: the least-loaded worker by
    /// consumer count, the earliest-spawned one on a tie. Fails only on an
    /// empty pool.
    pub fn pick_worker(&self) -> (r: Option<usize>)
        ensures
            r is Some <==> self.workers@.len() > 0,
            r matches Some(i) ==> {
                &&& i < self.workers@.len()
                &&& forall|j: int|
                    0 <= j < self.workers@.len()
                        ==> (#[trigger] self.workers@[j]).consumer_count
                            >= self.workers@[i as int].consumer_count
                &&& forall|j: int|
                    0 <= j < i
                        ==> (#[trigger] self.workers@[j]).consumer_count
                            > self.workers@[i as int].consumer_count
            },
    {
        let n = self.workers.len();
        if n == 0 {
            return None;
        }
        let mut best: usize = 0;
        let mut i: usize = 1;
        while i < n
            invariant
                0 <= best < i <= n,
                n == self.workers@.len(),
                forall|j: int|
                    0 <= j < i
                        ==> (#[trigger] self.workers@[j]).consumer_count
                            >= self.workers@[best as int].consumer_count,
                forall|j: int|
                    0 <= j < best
                        ==> (#[trigger] self.workers@[j]).consumer_count
                            > self.workers@[best as int].consumer_count,
            decreases n - i,
        {
            if self.workers[i].consumer_count < self.workers[best].consumer_count {
                best = i;
            }
            i += 1;
        }
        Some(best)
    }

    /// Assigns a new router to the worker at `i`.
    pub fn assign_router(&mut self, i: usize)
        requires
            old(self).wf(),
            i < old(self).workers@.len(),
            old(self).workers@[i as int].router_count < u32::MAX,
        ensures
            final(self).wf(),
            final(self).max_workers == old(self).max_workers,
            final(self).consumers_per_worker == old(self).consumers_per_worker,
            final(self).workers@.len() == old(self).workers@.len(),
            final(self).workers@[i as int].id == old(self).workers@[i as int].id,
            final(self).workers@[i as int].consumer_count == old(self).workers@[
                i as int
            ].consumer_count,
            final(self).workers@[i as int].router_count == old(self).workers@[
                i as int
            ].router_count + 1,
            forall|j: int|
                0 <= j < old(self).workers@.len() && j != i
                    ==> #[trigger] final(self).workers@[j] == old(self).workers@[j],
    {
        let mut record = self.workers.remove(i);
        record.router_count = record.router_count + 1;
        self.workers.insert(i, record);
        proof {
            assert(self.workers@ =~= old(self).workers@.update(i as int, record));
        }
    }

    /// The worker id at index `i`, for wiring callbacks to the chosen worker.
    pub fn worker_id_at(&self, i: usize) -> (r: WorkerId)
        requires
            i < self.workers@.len(),
        ensures
            r == self.workers@[i as int].id,
    {
        self.workers[i].id
    }

    /// A router on `worker_id` closed: its worker keeps the remaining
    /// routers, or is released — record dropped, returning `true` — when this
    /// was its last one.
    pub fn on_router_closed(&mut self, worker_id: WorkerId) -> (released: bool)
        requires
            old(self).wf(),
        ensures
            final(self).wf(),
            final(self).max_workers == old(self).max_workers,
            final(self).consumers_per_worker == old(self).consumers_per_worker,
            !old(self).spec_has_worker(worker_id) ==> {
                &&& final(self).workers@ == old(self).workers@
                &&& !released
            },
            old(self).spec_has_worker(worker_id) ==> exists|i: int|
                {
                    &&& 0 <= i < old(self).workers@.len()
                    &&& (#[trigger] old(self).workers@[i]).id == worker_id
                    &&& if old(self).workers@[i].router_count > 1 {
                        &&& !released
                        &&& final(self).workers@.len() == old(self).workers@.len()
                        &&& final(self).workers@[i].id == worker_id
                        &&& final(self).workers@[i].router_count == old(self).workers@[
                            i
                        ].router_count - 1
                        &&& final(self).workers@[i].consumer_count == old(self).workers@[
                            i
                        ].consumer_count
                        &&& forall|j: int|
                            0 <= j < old(self).workers@.len() && j != i
                                ==> #[trigger] final(self).workers@[j] == old(self).workers@[j]
                    } else {
                        &&& released
                        &&& final(self).workers@ == old(self).workers@.remove(i)
                        &&& !final(self).spec_has_worker(worker_id)
                    }
                },
    {
        let n = self.workers.len();
        let mut i: usize = 0;
        while i < n
            invariant
                0 <= i <= n,
                n == self.workers@.len(),
                old(self) == self,
                self.wf(),
                forall|j: int| 0 <= j < i ==> (#[trigger] self.workers@[j]).id != worker_id,
            decreases n - i,
        {
            if self.workers[i].id.0 == worker_id.0 {
                let ghost old_workers = self.workers@;
                if self.workers[i].router_count > 1 {
                    let mut record = self.workers.remove(i);
                    record.router_count = record.router_count - 1;
                    self.workers.insert(i, record);
                    proof {
                        assert(self.workers@ =~= old_workers.update(i as int, record));
                    }
                    return false;
                } else {
                    self.workers.remove(i);
                    proof {
                        assert(forall|k: int|
                            0 <= k < self.workers@.len() ==> #[trigger] self.workers@[k] == if k
                                < i {
                                old_workers[k]
                            } else {
                                old_workers[k + 1]
                            });
                        assert(!self.spec_has_worker(worker_id)) by {
                            if self.spec_has_worker(worker_id) {
                                let k = choose|k: int|
                                    0 <= k < self.workers@.len()
                                        && (#[trigger] self.workers@[k]).id == worker_id;
                                if k < i {
                                    assert(old_workers[k].id == worker_id);
                                } else {
                                    assert(old_workers[k + 1].id == worker_id);
                                    assert(old_workers[i as int].id == worker_id);
                                }
                            }
                        }
                    }
                    return true;
                }
            }
            i += 1;
        }
        false
    }

    /// The consumer-create callback: one more consumer lives on `worker_id`.
    /// A count already at the integer limit stays there; a worker without a
    /// record is ignored.
    pub fn increase_consumer_count(&mut self, worker_id: WorkerId)
        requires
            old(self).wf(),
        ensures
            final(self).wf(),
            final(self).max_workers == old(self).max_workers,
            final(self).consumers_per_worker == old(self).consumers_per_worker,
            !old(self).spec_has_worker(worker_id) ==> final(self).workers@ == old(self).workers@,
            old(self).spec_has_worker(worker_id) ==> exists|i: int|
                {
                    &&& 0 <= i < old(self).workers@.len()
                    &&& (#[trigger] old(self).workers@[i]).id == worker_id
                    &&& final(self).workers@.len() == old(self).workers@.len()
                    &&& final(self).workers@[i].id == worker_id
                    &&& final(self).workers@[i].router_count == old(self).workers@[
                        i
                    ].router_count
                    &&& final(self).workers@[i].consumer_count == if old(self).workers@[
                        i
                    ].consumer_count < u32::MAX {
                        old(self).workers@[i].consumer_count + 1
                    } else {
                        old(self).workers@[i].consumer_count as int
                    }
                    &&& forall|j: int|
                        0 <= j < old(self).workers@.len() && j != i
                            ==> #[trigger] final(self).workers@[j] == old(self).workers@[j]
                },
    {
        let n = self.workers.len();
        let mut i: usize = 0;
        while i < n
            invariant
                0 <= i <= n,
                n == self.workers@.len(),
                old(self) == self,
                self.wf(),
                forall|j: int| 0 <= j < i ==> (#[trigger] self.workers@[j]).id != worker_id,
            decreases n - i,
        {
            if self.workers[i].id.0 == worker_id.0 {
                let mut record = self.workers.remove(i);
                if record.consumer_count < u32::MAX {
                    record.consumer_count = record.consumer_count + 1;
                }
                self.workers.insert(i, record);
                proof {
                    assert(self.workers@ =~= old(self).workers@.update(i as int, record));
                }
                return;
            }
            i += 1;
        }
    }

    /// The consumer-close callback: one consumer on `worker_id` is gone. A
    /// count already at zero stays there; a worker without a record is
    /// ignored.
    pub fn decrease_consumer_count(&mut self, worker_id: WorkerId)
        requires
            old(self).wf(),
        ensures
            final(self).wf(),
            final(self).max_workers == old(self).max_workers,
            final(self).consumers_per_worker == old(self).consumers_per_worker,
            !old(self).spec_has_worker(worker_id) ==> final(self).workers@ == old(self).workers@,
            old(self).spec_has_worker(worker_id) ==> exists|i: int|
                {
                    &&& 0 <= i < old(self).workers@.len()
                    &&& (#[trigger] old(self).workers@[i]).id == worker_id
                    &&& final(self).workers@.len() == old(self).workers@.len()
                    &&& final(self).workers@[i].id == worker_id
                    &&& final(self).workers@[i].router_count == old(self).workers@[
                        i
                    ].router_count
                    &&& final(self).workers@[i].consumer_count == apply_consumer_event(
                        old(self).workers@[i].consumer_count as int,
                        false,
                    )
                    &&& forall|j: int|
                        0 <= j < old(self).workers@.len() && j != i
                            ==> #[trigger] final(self).workers@[j] == old(self).workers@[j]
                },
    {
        let n = self.workers.len();
        let mut i: usize = 0;
        while i < n
            invariant
                0 <= i <= n,
                n == self.workers@.len(),
                old(self) == self,
                self.wf(),
                forall|j: int| 0 <= j < i ==> (#[trigger] self.workers@[j]).id != worker_id,
            decreases n - i,
        {
            if self.workers[i].id.0 == worker_id.0 {
                let mut record = self.workers.remove(i);
                if record.consumer_count > 0 {
                    record.consumer_count = record.consumer_count - 1;
                }
                self.workers.insert(i, record);
                proof {
                    assert(self.workers@ =~= old(self).workers@.update(i as int, record));
                }
                return;
            }
            i += 1;
        }
    }

    /// A worker died: its record is dropped; the returned flag says whether
    /// it still carried consumers, in which case the sessions on it must be
    /// told.
    pub fn on_worker_dead(&mut self, worker_id: WorkerId) -> (had_consumers: bool)
        requires
            old(self).wf(),
        ensures
            final(self).wf(),
            final(self).max_workers == old(self).max_workers,
            final(self).consumers_per_worker == old(self).consumers_per_worker,
            !final(self).spec_has_worker(worker_id),
            !old(self).spec_has_worker(worker_id) ==> {
                &&& final(self).workers@ == old(self).workers@
                &&& !had_consumers
            },
            old(self).spec_has_worker(worker_id) ==> exists|i: int|
                {
                    &&& 0 <= i < old(self).workers@.len()
                    &&& (#[trigger] old(self).workers@[i]).id == worker_id
                    &&& final(self).workers@ == old(self).workers@.remove(i)
                    &&& had_consumers == (old(self).workers@[i].consumer_count > 0)
                },
    {
        let n = self.workers.len();
        let mut i: usize = 0;
        while i < n
            invariant
                0 <= i <= n,
                n == self.workers@.len(),
                old(self) == self,
                self.wf(),
                forall|j: int| 0 <= j < i ==> (#[trigger] self.workers@[j]).id != worker_id,
            decreases n - i,
        {
            if self.workers[i].id.0 == worker_id.0 {
                let ghost old_workers = self.workers@;
                let record = self.workers.remove(i);
                proof {
                    assert(forall|k: int|
                        0 <= k < self.workers@.len() ==> #[trigger] self.workers@[k] == if k
                            < i {
                            old_workers[k]
                        } else {
                            old_workers[k + 1]
                        });
                    assert(!self.spec_has_worker(worker_id)) by {
                        if self.spec_has_worker(worker_id) {
                            let k = choose|k: int|
                                0 <= k < self.workers@.len() && (#[trigger] self.workers@[k]).id
                                    == worker_id;
                            if k < i {
                                assert(old_workers[k].id == worker_id);
                            } else {
                                assert(old_workers[k + 1].id == worker_id);
                                assert(old_workers[i as int].id == worker_id);
                            }
                        }
                    }
                }
                return record.consumer_count > 0;
            }
            i += 1;
        }
        proof {
            assert(!self.spec_has_worker(worker_id));
        }
        false
    }
}

/// One consumer-count callback applied to a count: a create raises it, a
/// close lowers it but never below zero.
pub open spec fn apply_consumer_event(count: int, create: bool) -> int {
    if create {
        count + 1
    } else if count > 0 {
        count - 1
    } else {
        count
    }
}

/// The consumer count after a callback sequence, starting from a fresh
/// worker; `true` is a consumer-create, `false` a consumer-close.
pub open spec fn consumer_count_after(events: Seq<bool>) -> int
    decreases events.len(),
{
    if events.len() == 0 {
        0
    } else {
        apply_consumer_event(consumer_count_after(events.drop_last()), events.last())
    }
}

/// How many creates the callback sequence holds.
pub open spec fn creates_in(events: Seq<bool>) -> int
    decreases events.len(),
{
    if events.len() == 0 {
        0
    } else {
        creates_in(events.drop_last()) + if events.last() { 1int } else { 0int }
    }
}

/// How many closes the callback sequence holds.
pub open spec fn closes_in(events: Seq<bool>) -> int
    decreases events.len(),
{
    if events.len() == 0 {
        0
    } else {
        closes_in(events.drop_last()) + if events.last() { 0int } else { 1int }
    }
}

/// Whether every close in the sequence is matched by an earlier create, as
/// the worker callbacks guarantee: a consumer closes only after it was
/// created.
pub open spec fn closes_covered(events: Seq<bool>) -> bool {
    forall|k: int|
        0 <= k <= events.len() ==> closes_in(#[trigger] events.take(k)) <= creates_in(
            events.take(k),
        )
}

/// Law (worker consumer-count invariant): the count never drops below zero,
/// and under matched callbacks it is exactly the creates minus the closes —
/// so after a full close of every consumer created on a worker, its count is
/// back to zero.
pub proof fn lemma_consumer_count_balanced(events: Seq<bool>)
    requires
        closes_covered(events),
    ensures
        consumer_count_after(events) == creates_in(events) - closes_in(events),
        consumer_count_after(events) >= 0,
    decreases events.len(),
{
    if events.len() > 0 {
        let dl = events.drop_last();
        assert(closes_covered(dl)) by {
            assert forall|k: int|
                0 <= k <= dl.len() implies closes_in(#[trigger] dl.take(k)) <= creates_in(
                dl.take(k),
            ) by {
                assert(dl.take(k) =~= events.take(k));
            }
        }
        lemma_consumer_count_balanced(dl);
        assert(events.take(events.len() as int) =~= events);
        assert(events.take(dl.len() as int) =~= dl);
        if !events.last() {
            assert(closes_in(events) <= creates_in(events));
            assert(closes_in(events) == closes_in(dl) + 1);
            assert(creates_in(events) == creates_in(dl));
        }
    }
}

/// Whether a codec carries audio or video.
#[derive(Debug, PartialEq, Eq, Structural, Clone, Copy)]
pub enum MediaKind {
    Audio,
    Video,
}

/// The codecs the routers are created with.
#[derive(Debug, PartialEq, Eq, Structural, Clone, Copy)]
pub enum CodecMimeType {
    AudioOpus,
    VideoVp8,
}

/// The RTCP feedback mechanisms a codec is announced with.
#[derive(Debug, PartialEq, Eq, Structural, Clone, Copy)]
pub enum RtcpFeedbackKind {
    TransportCc,
    Nack,
    NackPli,
    CcmFir,
    GoogRemb,
}

/// One codec capability announced to the media worker when a router is
/// created.
pub struct RtpCodecCapability {
    pub mime_type: CodecMimeType,
    /// Left open so the worker assigns payload types.
    pub preferred_payload_type: Option<u8>,
    pub clock_rate: u32,
    /// Audio channel count; video codecs carry none.
    pub channels: Option<u8>,
    /// Whether the codec asks for in-band forward error correction.
    pub use_inband_fec: bool,
    pub rtcp_feedback: Vec<RtcpFeedbackKind>,
}

/// The codec set every router supports: Opus stereo at 48 kHz with in-band
/// FEC, and VP8 at 90 kHz with the usual video feedback set.
pub fn supported_codecs() -> (r: Vec<RtpCodecCapability>)
    ensures
        r@.len() == 2,
        r@[0].mime_type == CodecMimeType::AudioOpus,
        r@[0].preferred_payload_type is None,
        r@[0].clock_rate == 48000,
        r@[0].channels == Some(2u8),
        r@[0].use_inband_fec,
        r@[0].rtcp_feedback@ =~= seq![RtcpFeedbackKind::TransportCc],
        r@[1].mime_type == CodecMimeType::VideoVp8,
        r@[1].preferred_payload_type is None,
        r@[1].clock_rate == 90000,
        r@[1].channels is None,
        !r@[1].use_inband_fec,
        r@[1].rtcp_feedback@ =~= seq![
            RtcpFeedbackKind::Nack,
            RtcpFeedbackKind::NackPli,
            RtcpFeedbackKind::CcmFir,
            RtcpFeedbackKind::GoogRemb,
            RtcpFeedbackKind::TransportCc,
        ],
{
    let mut audio_feedback: Vec<RtcpFeedbackKind> = Vec::new();
    audio_feedback.push(RtcpFeedbackKind::TransportCc);
    let mut video_feedback: Vec<RtcpFeedbackKind> = Vec::new();
    video_feedback.push(RtcpFeedbackKind::Nack);
    video_feedback.push(RtcpFeedbackKind::NackPli);
    video_feedback.push(RtcpFeedbackKind::CcmFir);
    video_feedback.push(RtcpFeedbackKind::GoogRemb);
    video_feedback.push(RtcpFeedbackKind::TransportCc);
    let mut r: Vec<RtpCodecCapability> = Vec::new();
    r.push(
        RtpCodecCapability {
            mime_type: CodecMimeType::AudioOpus,
            preferred_payload_type: None,
            clock_rate: 48000,
            channels: Some(2),
            use_inband_fec: true,
            rtcp_feedback: audio_feedback,
        },
    );
    r.push(
        RtpCodecCapability {
            mime_type: CodecMimeType::VideoVp8,
            preferred_payload_type: None,
            clock_rate: 90000,
            channels: None,
            use_inband_fec: false,
            rtcp_feedback: video_feedback,
        },
    );
    r
}

} // verus!
