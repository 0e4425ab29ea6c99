use imgforge::server::config::ServerConfig;
use imgforge::server::models::{RemoteBatch, RemoteBatchKind, RemoteJobRequest, RemoteJobSource};
use imgforge::server::queue::InMemoryQueue;
use imgforge::server::storage::{InMemoryJobStore, StoreSnapshot};
use imgforge::server::worker::output_asset;
use imgforge::video::contact_sheet::{
    compute_layout, plan_index_pages, plan_video_sheet, ContactSheetRequest, ContactSheetResult,
};
use imgforge::video::domain::{ReviewStatus, VideoItem, VideoTag};
use imgforge::video::export::retain_selected;
use imgforge::video::grid_video::{
    plan_grid_export, GridVideoCaptionMode, GridVideoExportQuality, GridVideoExportRequest, GridVideoExportResult,
};
use imgforge::video::playback::{ab_loop_jump, interval_elapsed, player_status_label, FidelityMode, PresentMode, ScopeSampleThrottle};
use imgforge::ui::GuiProgress;
use imgforge::video::scopes::{
    add_histogram, analyze_histogram, analyze_waveform, AggregateAccumulator, AggregateRange, FrameAnalysis,
    ScopeKind, ScopeOptions, WaveformMode,
};
use imgforge::video::services::{first_free, unique_output_path};

fn item(id: i64) -> VideoItem {
    VideoItem {
        id,
        batch_id: 1,
        file_path: format!("/tmp/{id}.mp4"),
        status: ReviewStatus::Pending,
        remark: None,
        thumbnail_path: None,
        duration_ms: 60_000,
        width: 1920,
        height: 1080,
        video_codec: "h264".to_string(),
        audio_codec: Some("aac".to_string()),
        bitrate_kbps: Some(5000),
        device_model: None,
        offset_ms: 0,
        created_at: 0,
        updated_at: 0,
        deleted_at: None,
    }
}

fn solid(n: usize, px: [u8; 4]) -> Vec<u8> {
    let mut v = Vec::new();
    for _ in 0..n {
        v.extend_from_slice(&px);
    }
    v
}

#[test]
fn default_bind_is_loopback() {
    let c = ServerConfig::default_in("/tmp/x".to_string());
    assert_eq!(c.bind, "127.0.0.1:8787");
}

#[test]
fn histogram_black_and_white_peaks() {
    let black = solid(16, [0, 0, 0, 255]);
    let white = solid(16, [255, 255, 255, 255]);
    let mut acc = AggregateAccumulator::new(ScopeKind::Histogram, ScopeOptions::default_options());
    acc.push_analysis(FrameAnalysis::Histogram(analyze_histogram(&black, &vec![(0, 0); 16])));
    acc.push_analysis(FrameAnalysis::Histogram(analyze_histogram(&white, &vec![(255, 0); 16])));
    let out = acc.finish(AggregateRange { start_ms: 0, end_ms: 1000 }).unwrap();
    assert_eq!(out.sample_count, 2);
    let bins_black = analyze_histogram(&black, &vec![(0, 0); 16]);
    let bins_white = analyze_histogram(&white, &vec![(255, 0); 16]);
    let mut sum = analyze_histogram(&[], &[]);
    add_histogram(&mut sum, &bins_black);
    add_histogram(&mut sum, &bins_white);
    assert!(sum.y[0] > 0);
    assert!(sum.y[255] > 0);
    match out.data {
        FrameAnalysis::Histogram(h) => {
            assert_eq!(h.y, sum.y);
            assert_eq!(h.r[0], 16);
            assert_eq!(h.r[255], 16);
        },
        _ => panic!("histogram expected"),
    }
}

#[test]
fn waveform_accumulates_counts() {
    let img = solid(32, [255, 255, 255, 255]);
    let levels = vec![255u8; 32];
    let mut acc = AggregateAccumulator::new(ScopeKind::Waveform, ScopeOptions::default_options());
    acc.push_analysis(FrameAnalysis::Waveform(analyze_waveform(8, &img, &levels, WaveformMode::Luma)));
    acc.push_analysis(FrameAnalysis::Waveform(analyze_waveform(8, &img, &levels, WaveformMode::Luma)));
    let one = analyze_waveform(8, &img, &levels, WaveformMode::Luma);
    let finished = acc.finish(AggregateRange { start_ms: 0, end_ms: 500 }).unwrap();
    assert_eq!(finished.sample_count, 2);
    match finished.data {
        FrameAnalysis::Waveform(w) => {
            assert_eq!(w.bins.iter().sum::<u32>(), one.bins.iter().sum::<u32>() * 2);
        },
        _ => panic!("waveform expected"),
    }
}

#[test]
fn export_image_index_single_page_uses_base_name() {
    let pages = plan_index_pages(12, &"/tmp/idx".to_string(), "screenshots_index", 160).unwrap();
    assert_eq!(pages.len(), 1);
    assert_eq!(pages[0].dest, "/tmp/idx/screenshots_index.png");
    assert_eq!(pages[0].count, 12);
}

#[test]
fn export_image_index_paginates_beyond_36() {
    let pages = plan_index_pages(37, &"/tmp/idx".to_string(), "screenshots_index", 160).unwrap();
    assert_eq!(pages.len(), 2);
    assert_eq!(pages[0].dest, "/tmp/idx/screenshots_index_001.png");
    assert_eq!(pages[1].dest, "/tmp/idx/screenshots_index_002.png");
    assert_eq!(pages[0].count, 36);
    assert_eq!(pages[1].count, 1);
    assert_eq!(pages[1].first, 36);
    assert_eq!(pages[1].plan.layout, compute_layout(1, 160, 90));
}

#[test]
fn preview_rows_respects_selected_ids() {
    let kept = retain_selected(vec![item(1), item(2)], &Some(vec![1]));
    assert_eq!(kept.len(), 1);
    assert_eq!(kept[0].id, 1);
}

#[test]
fn sheet_plan_and_result() {
    let req = ContactSheetRequest::new(vec![item(1), item(2), item(3)], 0, "/tmp/sheet.png".to_string());
    let plan = plan_video_sheet(&req).unwrap();
    assert_eq!((plan.frame_w, plan.frame_h), (req.cell_frame_width.max(160), plan.frame_h));
    assert_eq!(plan.layout, compute_layout(3, plan.frame_w, plan.frame_h));
    let r = ContactSheetResult::of_sheet(&req, &plan);
    assert_eq!(r.video_count, 3);
    assert_eq!((r.width, r.height), (plan.layout.sheet_w, plan.layout.sheet_h));
    assert_eq!((r.rows, r.cols), (plan.layout.rows, plan.layout.cols));
    assert_eq!(r.dest, "/tmp/sheet.png");
    let small = ContactSheetRequest { cell_frame_width: 100, ..ContactSheetRequest::new(vec![item(1), item(2)], 0, String::new()) };
    let p = plan_video_sheet(&small).unwrap();
    assert_eq!((p.frame_w, p.frame_h), (160, 90));
}

#[test]
fn grid_export_result_sizes() {
    let mut req = GridVideoExportRequest::new(vec![item(1), item(2), item(3)], 0, 10_000, "/tmp/g.mp4".to_string());
    req.quality = GridVideoExportQuality::Lossless;
    let plan = plan_grid_export(&req).unwrap();
    let r = GridVideoExportResult::of_export(&req, &plan, 44, GridVideoCaptionMode::DeviceModel, None);
    assert_eq!(r.width, plan.cols as u32 * plan.cell_w);
    assert_eq!(r.height, plan.rows as u32 * (plan.cell_h + 44));
    assert_eq!(r.cell_height, plan.cell_h + 44);
    assert_eq!(r.quality, GridVideoExportQuality::Lossless);
    assert_eq!(r.duration_ms, 10_000);
    assert_eq!(r.video_count, 3);
    assert_eq!(GridVideoCaptionMode::default(), GridVideoCaptionMode::DeviceModel);
    assert_eq!(GridVideoCaptionMode::default().footer_height(), 44);
}

#[test]
fn throttle_interval_rule() {
    assert!(!interval_elapsed(49_999_999, 50));
    assert!(interval_elapsed(50_000_000, 50));
    assert!(interval_elapsed(0, 0));
    let mut t = ScopeSampleThrottle::with_interval(10);
    assert_eq!(t.last_sampled_ms(), None);
    assert!(t.should_sample(100, true, false));
    assert_eq!(t.last_sampled_ms(), Some(100));
    // within 50 ms of the first sample (the floor of the interval) nothing new is granted
    assert!(!t.should_sample(200, true, false));
    assert_eq!(t.last_sampled_ms(), Some(100));
}

#[test]
fn least_free_index_and_free_name() {
    assert_eq!(first_free(&vec![true, true, false, false]), Some(2));
    assert_eq!(first_free(&vec![false]), Some(0));
    assert_eq!(first_free(&vec![true, true]), None);
    assert_eq!(first_free(&vec![]), None);
    let p = unique_output_path(&"/nonexistent-imgforge-dir".to_string(), "001_demo.jpg");
    assert_eq!(p, "/nonexistent-imgforge-dir/001_demo.jpg");
}

#[test]
fn palette_cycles() {
    assert_eq!(VideoTag::palette_color(0), [0, 122, 255, 255]);
    assert_eq!(VideoTag::palette_color(7), [142, 142, 147, 255]);
    assert_eq!(VideoTag::palette_color(9), [255, 45, 85, 255]);
}

#[test]
fn output_asset_record() {
    let config = ServerConfig::default_in("/tmp/x".to_string());
    let a = output_asset(&config, "job-7", 2, Some("b.PNG".to_string()), "sub\\b.PNG", 12, "abc".to_string());
    assert_eq!(a.id, "out-job-7-2");
    assert_eq!(a.name, "sub/b.PNG");
    assert_eq!(a.mime.as_deref(), Some("image/png"));
    assert_eq!(a.size, Some(12));
    assert_eq!(a.checksum.as_deref(), Some("abc"));
    assert_eq!(a.download_url.as_deref(), Some("http://127.0.0.1:8787/v1/artifacts/out-job-7-2/content"));
}

#[test]
fn claim_lease_carries_job_and_attempt() {
    let mut q = InMemoryQueue::new();
    q.enqueue("j1", 0).unwrap();
    let c = q.claim("w1", 30).unwrap().unwrap();
    assert_eq!(c.message.job_id, "j1");
    assert_eq!(c.message.attempt, 0);
    assert_eq!(c.lease.job_id, "j1");
    assert_eq!(c.lease.worker_id, "w1");
    assert_eq!(c.lease.attempt, 0);
    assert_eq!(q.pending_len().unwrap(), 0);
    assert!(q.claim("w2", 30).unwrap().is_none());
    q.ack(&c.lease.claim_token).unwrap();
    assert_eq!(q.pending_len().unwrap(), 0);
}

#[test]
fn restore_sets_counter_and_keys() {
    let mut src = InMemoryJobStore::new();
    src.create_job_at(RemoteJobRequest::default_request(), 1).unwrap();
    let job = src.list_jobs(10).unwrap()[0].job_id.clone();
    let batch = RemoteBatch {
        schema_version: 1,
        batch_id: "batch-9".to_string(),
        name: "b".to_string(),
        kind: RemoteBatchKind::Video,
        source: RemoteJobSource::VideoReview,
        workspace_id: None,
        item_count: 0,
        created_at: 0,
        updated_at: 0,
        cover_asset: None,
        status_summary: None,
    };
    let record = src.get_job_record(&job).unwrap();
    let snapshot = StoreSnapshot {
        jobs: vec![record],
        results: vec![],
        events: vec![],
        uploads: vec![],
        assets: vec![],
        idempotency: vec![("default".to_string(), "c1".to_string(), job.clone())],
        batches: vec![batch],
        review_items: vec![],
        annotations: vec![],
        extract_results: vec![],
    };
    let mut store = InMemoryJobStore::new();
    store.load_into_memory(snapshot).unwrap();
    assert_eq!(store.id_counter(), 1 + 100);
    assert!(store.get_batch("batch-9").is_ok());
}

#[test]
fn player_status_and_ab_loop() {
    assert_eq!(player_status_label(false, "vt", PresentMode::Gl, FidelityMode::Native), "抽帧模式");
    assert_eq!(
        player_status_label(true, "vt", PresentMode::Gl, FidelityMode::Native),
        "libmpv · vt · GL · native · 面板"
    );
    assert_eq!(ab_loop_jump(true, 5000, 1000, 5000), Some(1000));
    assert_eq!(ab_loop_jump(true, 4999, 1000, 5000), None);
    assert_eq!(ab_loop_jump(false, 6000, 1000, 5000), None);
    assert_eq!(ab_loop_jump(true, 6000, 5000, 5000), None);
}

#[test]
fn saved_bytes_over_tasks() {
    let mut g = GuiProgress::new();
    g.inc(Some((100, 30)));
    assert_eq!(g.saved_bytes(), 70);
    g.inc(None);
    g.inc(Some((10, 200)));
    assert_eq!(g.saved_bytes(), 0);
}

#[test]
fn reclaim_requeues_expired_claims() {
    let mut q = InMemoryQueue::new();
    q.enqueue_at("j1", 0, 0);
    q.enqueue_at("j2", 4, 0);
    let c1 = q.claim_at("w1", 1, 0, 0).unwrap();
    let c2 = q.claim_at("w2", 100, 0, 0).unwrap();
    // at 2 s the first lease (1 s) has run out, the second (100 s) has not
    let ids = q.reclaim_expired_at(2_000_000_000).unwrap();
    assert_eq!(ids, vec!["j1".to_string()]);
    assert_eq!(q.pending_len().unwrap(), 1);
    assert!(q.heartbeat_at(&c1.lease.claim_token, 30, 2_000_000_000).is_err());
    assert!(q.heartbeat_at(&c2.lease.claim_token, 30, 2_000_000_000).is_ok());
    let again = q.claim_at("w3", 30, 3_000_000_000, 3).unwrap();
    assert_eq!(again.message.job_id, "j1");
    assert_eq!(again.message.attempt, 1);
}
