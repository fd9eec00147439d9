use confroom_server::router_dispatch::{
    supported_codecs, CodecMimeType, RtcpFeedbackKind, WorkerPool,
};
use confroom_server::uuids::WorkerId;

#[test]
fn workers_are_spawned_until_the_bound_then_reused() {
    let mut pool = WorkerPool::new(2, 500);
    assert!(pool.below_worker_limit());
    pool.register_worker(WorkerId(1));
    assert!(pool.below_worker_limit());
    pool.register_worker(WorkerId(2));
    assert!(!pool.below_worker_limit());
}

#[test]
fn routers_go_to_the_least_loaded_worker_first_on_ties() {
    let mut pool = WorkerPool::new(3, 500);
    pool.register_worker(WorkerId(1));
    pool.register_worker(WorkerId(2));
    pool.register_worker(WorkerId(3));
    pool.increase_consumer_count(WorkerId(1));
    // Workers 2 and 3 tie at zero consumers: the earliest-spawned wins.
    let i = pool.pick_worker().unwrap();
    assert_eq!(pool.worker_id_at(i), WorkerId(2));
    pool.increase_consumer_count(WorkerId(2));
    pool.increase_consumer_count(WorkerId(2));
    pool.increase_consumer_count(WorkerId(3));
    // Now worker 3 is the least loaded of 1 (1), 2 (2), 3 (1)? Worker 1 ties
    // with 3 at one consumer; the earliest wins.
    let j = pool.pick_worker().unwrap();
    assert_eq!(pool.worker_id_at(j), WorkerId(1));
}

#[test]
fn an_empty_pool_cannot_place_a_router() {
    let pool = WorkerPool::new(2, 500);
    assert!(pool.pick_worker().is_none());
}

#[test]
fn closing_the_last_router_releases_the_worker() {
    let mut pool = WorkerPool::new(2, 500);
    pool.register_worker(WorkerId(1));
    pool.register_worker(WorkerId(2));
    pool.assign_router(0);
    pool.assign_router(0);
    pool.assign_router(1);
    // The first close only lowers the count.
    assert!(!pool.on_router_closed(WorkerId(1)));
    // The second close is the last router: the record is dropped.
    assert!(pool.on_router_closed(WorkerId(1)));
    assert_eq!(pool.workers.len(), 1);
    assert_eq!(pool.workers[0].id, WorkerId(2));
    // No new router can be assigned to the dropped worker: picking only ever
    // yields live records.
    let i = pool.pick_worker().unwrap();
    assert_eq!(pool.worker_id_at(i), WorkerId(2));
}

#[test]
fn a_dead_worker_with_consumers_is_reported() {
    let mut pool = WorkerPool::new(2, 500);
    pool.register_worker(WorkerId(1));
    pool.register_worker(WorkerId(2));
    pool.increase_consumer_count(WorkerId(2));
    assert!(!pool.on_worker_dead(WorkerId(1)));
    assert_eq!(pool.workers.len(), 1);
    assert!(pool.on_worker_dead(WorkerId(2)));
    assert!(pool.workers.is_empty());
}

#[test]
fn consumer_count_returns_to_zero_after_a_full_close() {
    let mut pool = WorkerPool::new(1, 500);
    pool.register_worker(WorkerId(1));
    for _ in 0..5 {
        pool.increase_consumer_count(WorkerId(1));
    }
    assert_eq!(pool.workers[0].consumer_count, 5);
    for _ in 0..5 {
        pool.decrease_consumer_count(WorkerId(1));
    }
    assert_eq!(pool.workers[0].consumer_count, 0);
    // A stray extra close never drives the count negative.
    pool.decrease_consumer_count(WorkerId(1));
    assert_eq!(pool.workers[0].consumer_count, 0);
}

#[test]
fn counts_for_unknown_workers_are_ignored() {
    let mut pool = WorkerPool::new(1, 500);
    pool.register_worker(WorkerId(1));
    pool.increase_consumer_count(WorkerId(9));
    pool.decrease_consumer_count(WorkerId(9));
    assert_eq!(pool.workers[0].consumer_count, 0);
    assert!(!pool.on_router_closed(WorkerId(9)));
    assert!(!pool.on_worker_dead(WorkerId(9)));
    assert_eq!(pool.workers.len(), 1);
}

#[test]
fn the_router_codec_set_is_opus_and_vp8() {
    let codecs = supported_codecs();
    assert_eq!(codecs.len(), 2);
    assert_eq!(codecs[0].mime_type, CodecMimeType::AudioOpus);
    assert_eq!(codecs[0].clock_rate, 48000);
    assert_eq!(codecs[0].channels, Some(2));
    assert!(codecs[0].use_inband_fec);
    assert_eq!(codecs[0].rtcp_feedback, vec![RtcpFeedbackKind::TransportCc]);
    assert_eq!(codecs[1].mime_type, CodecMimeType::VideoVp8);
    assert_eq!(codecs[1].clock_rate, 90000);
    assert_eq!(codecs[1].channels, None);
    assert_eq!(
        codecs[1].rtcp_feedback,
        vec![
            RtcpFeedbackKind::Nack,
            RtcpFeedbackKind::NackPli,
            RtcpFeedbackKind::CcmFir,
            RtcpFeedbackKind::GoogRemb,
            RtcpFeedbackKind::TransportCc,
        ]
    );
}
