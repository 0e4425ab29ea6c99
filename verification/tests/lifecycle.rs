use imgforge::scheduler::{ConversionTask, ResizeOptions};
use imgforge::server::config::{join_path_exec, WorkerReliabilityPolicy};
use imgforge::server::error::StoreError;
use imgforge::server::models::{RemoteJobEventKind, RemoteJobPhase, RemoteJobRequest};
use imgforge::server::queue::InMemoryQueue;
use imgforge::server::rate_limit::RateLimiter;
use imgforge::server::storage::InMemoryJobStore;
use imgforge::server::worker::{begin_attempt, finish_attempt, AttemptEnd, AttemptStart};
use imgforge::video::playback::{force_seek, lane_command, visible_lanes, LaneCommand};
use imgforge::video::recognize::{recognition_plan, sample_pts_ms, scene_prefix};
use imgforge::video::scopes::{AggregateAccumulator, AggregateRange, ScopeKind, ScopeOptions};

#[test]
fn heartbeat_on_unknown_token_is_not_found() {
    let mut q = InMemoryQueue::new();
    q.enqueue_at("j1", 0, 0);
    match q.heartbeat("no-such-token", 30) {
        Err(StoreError::NotFound(t)) => assert_eq!(t, "no-such-token"),
        other => panic!("unexpected {other:?}"),
    }
    match q.heartbeat_at("other", 30, 5) {
        Err(StoreError::NotFound(t)) => assert_eq!(t, "other"),
        other => panic!("unexpected {other:?}"),
    }
}

#[test]
fn heartbeat_extends_the_lease() {
    let mut q = InMemoryQueue::new();
    q.enqueue_at("j1", 0, 0);
    let c = q.claim_at("w1", 1, 0, 0).unwrap();
    // at 0.5 s the lease is renewed for 30 s, so at 2 s nothing has run out
    q.heartbeat_at(&c.lease.claim_token, 30, 500_000_000).unwrap();
    assert!(q.reclaim_expired_at(2_000_000_000).unwrap().is_empty());
    // at 31 s it has
    assert_eq!(q.reclaim_expired_at(31_000_000_000).unwrap(), vec!["j1".to_string()]);
}

#[test]
fn limiter_refuses_third_request_and_refills() {
    let mut limiter = RateLimiter::new(2);
    assert!(limiter.check_at("k".to_string(), 0));
    assert!(limiter.check_at("k".to_string(), 0));
    assert!(!limiter.check_at("k".to_string(), 0));
    // another key has its own bucket
    assert!(limiter.check_at("other".to_string(), 0));
    // a minute later the bucket is full again
    assert!(limiter.check_at("k".to_string(), 60_000_000_000));
}

#[test]
fn begin_attempt_logs_worker_heartbeat() {
    let mut store = InMemoryJobStore::new();
    let mut queue = InMemoryQueue::new();
    let policy = WorkerReliabilityPolicy::default_policy();
    let st = store.create_job_at(RemoteJobRequest::default_request(), 5).unwrap();
    let before = store.list_events(&st.job_id, None).unwrap().len();
    let start = begin_attempt(&mut store, &mut queue, &policy, "tok", &st.job_id, "w", 1, 9).unwrap();
    match start {
        AttemptStart::Started { status, .. } => {
            assert_eq!(status.phase, RemoteJobPhase::Running);
            assert_eq!(status.updated_at, 9);
        }
        AttemptStart::AlreadyFinished => panic!("job was queued"),
    }
    let events = store.list_events(&st.job_id, None).unwrap();
    assert_eq!(events.len(), before + 2);
    let phase = &events[before];
    assert_eq!(phase.kind, RemoteJobEventKind::PhaseChange);
    assert_eq!(phase.phase, Some(RemoteJobPhase::Running));
    let beat = &events[before + 1];
    assert_eq!(beat.kind, RemoteJobEventKind::Heartbeat);
    assert_eq!(beat.phase, Some(RemoteJobPhase::Running));
    assert_eq!(beat.message.as_deref(), Some("worker=w attempt=1"));
    assert_eq!(beat.processed, Some(st.processed));
    assert_eq!(beat.total, Some(st.total));
    assert_eq!(beat.ts, 9);
}

#[test]
fn begin_attempt_on_missing_job_is_not_found() {
    let mut store = InMemoryJobStore::new();
    let mut queue = InMemoryQueue::new();
    let policy = WorkerReliabilityPolicy::default_policy();
    match begin_attempt(&mut store, &mut queue, &policy, "tok", "job-404", "w", 0, 1) {
        Err(StoreError::NotFound(id)) => assert_eq!(id, "job-404"),
        _ => panic!("expected NotFound"),
    }
}

#[test]
fn new_task_has_no_overrides() {
    let t = ConversionTask::new("/in/a.PNG".to_string(), "/out/a.webp".to_string(), 42);
    assert!(t.resize_override.is_none());
    assert!(t.format_override.is_none());
    assert!(t.quality_override.is_none());
    let r = ResizeOptions { width: Some(320), height: None };
    assert_eq!(r.width, Some(320));
}

#[test]
fn accumulator_counts_pushes_and_skips() {
    let mut acc = AggregateAccumulator::new(ScopeKind::Histogram, ScopeOptions::default_options());
    acc.note_skip();
    acc.note_skip();
    assert!(AggregateAccumulator::new(ScopeKind::Histogram, ScopeOptions::default_options())
        .finish(AggregateRange { start_ms: 0, end_ms: 10 })
        .is_err());
    assert_eq!(acc.skipped(), 2);
    assert_eq!(acc.sample_count(), 0);
    assert!(acc.finish(AggregateRange { start_ms: 0, end_ms: 10 }).is_err());
}

#[test]
fn recognition_plan_numbers() {
    let p = recognition_plan(4, 2000);
    assert_eq!(p.steps, 12);
    assert_eq!(p.frame_width, 1280);
    let p = recognition_plan(0, 100);
    assert_eq!(p.steps, 1);
    assert_eq!(p.frame_width, 256);
    assert_eq!(recognition_plan(usize::MAX, 512).steps, usize::MAX);
    assert_eq!(recognition_plan(1, 512).frame_width, 512);
    assert_eq!(sample_pts_ms(60_000), 6_000);
    assert_eq!(sample_pts_ms(2_000), 0);
    assert_eq!(sample_pts_ms(2_001), 200);
    assert_eq!(scene_prefix(Some("客厅"), false).as_deref(), Some("客厅"));
    assert_eq!(scene_prefix(None, true).as_deref(), Some("未识别"));
    assert_eq!(scene_prefix(None, false), None);
}

#[test]
fn lane_commands_follow_clock() {
    assert!(force_seek(true, true, false));
    assert!(force_seek(false, false, false));
    assert!(!force_seek(false, true, false));
    assert_eq!(visible_lanes(0, 0), 1);
    assert_eq!(visible_lanes(5, 0), 5);
    assert_eq!(visible_lanes(5, 2), 2);
    assert_eq!(lane_command(true, true, false, 10), LaneCommand::SeekFast(10));
    assert_eq!(lane_command(true, false, true, 10), LaneCommand::SeekExact(10));
    assert_eq!(lane_command(false, false, true, 10), LaneCommand::Play);
    assert_eq!(lane_command(false, false, false, 10), LaneCommand::CorrectAndPlay(10));
    assert!(LaneCommand::SeekExact(1).pauses());
    assert!(!LaneCommand::Play.pauses());
}

#[test]
fn cached_frame_name_uses_key_hash() {
    let h = imgforge::video::services::cache_key_hash("/tmp/v.mp4", 100, 500, 320);
    let name = imgforge::video::services::cached_frame_file_name("/tmp/v.mp4", 100, 500, 320);
    assert_eq!(name, format!("{h}_100_500_320.jpg"));
    assert_ne!(name, imgforge::video::services::cached_frame_file_name("/tmp/v.mp4", 100, 501, 320));
}

#[test]
fn failed_attempt_retries_then_dead_letters() {
    let mut store = InMemoryJobStore::new();
    let mut queue = InMemoryQueue::new();
    let policy = WorkerReliabilityPolicy::default_policy();
    let st = store.create_job_at(RemoteJobRequest::default_request(), 5).unwrap();
    let end = finish_attempt(&mut store, &mut queue, &policy, "tok", &st.job_id, 0, &st, Err("boom".to_string()), 6).unwrap();
    assert_eq!(end, AttemptEnd::Retry { next_attempt: 1, sleep_ms: 50 });
    assert!(store.list_dead_letters().unwrap().is_empty());
    let end = finish_attempt(&mut store, &mut queue, &policy, "tok", &st.job_id, 2, &st, Err("boom".to_string()), 7).unwrap();
    assert_eq!(end, AttemptEnd::DeadLettered);
    let dead = store.list_dead_letters().unwrap();
    assert_eq!(dead.len(), 1);
    assert_eq!(dead[0].attempts, 3);
    assert_eq!(dead[0].last_error, "boom");
    assert_eq!(store.get_job(&st.job_id).unwrap().phase, RemoteJobPhase::Failed);
}

#[test]
fn path_join_follows_unix_rules() {
    assert_eq!(join_path_exec(&"/data".to_string(), "objects"), "/data/objects");
    assert_eq!(join_path_exec(&"/data/".to_string(), "objects"), "/data/objects");
    assert_eq!(join_path_exec(&"".to_string(), "objects"), "objects");
    assert_eq!(join_path_exec(&"/data".to_string(), "/abs/x"), "/abs/x");
}
