use imgforge::scheduler::effective_concurrency;
use imgforge::server::models::{RemoteJobRequest, RemoteJobSource};
use imgforge::server::object_store::sha256_hex;
use imgforge::server::queue::InMemoryQueue;
use imgforge::server::rate_limit::RateLimiter;
use imgforge::server::storage::InMemoryJobStore;
use imgforge::video::contact_sheet::{compute_layout, grid_dimensions};
use imgforge::video::domain::{ReviewStatus, VideoItem, VideoQuery};
use imgforge::video::grid_video::{
    append_encode_args, build_filter_complex, build_filter_complex_with_captions, build_input_video_filter,
    build_xstack_layout, caption_text_for_video, compute_quality_cell_size, max_export_duration_ms,
    GridVideoCaptionMode, GridVideoExportQuality,
};
use imgforge::video::scopes::{sample_count_for_range, sample_timestamps, AggregateRange, MAX_SAMPLES, MIN_SAMPLES};
use imgforge::video::services::{
    cache_key_hash, device_model_from_tags, infer_device_model_from_filename, plan_shots, render_filename,
    BatchScreenshotRequest, ScreenshotFormat, ScreenshotMode, VideoMarker, VideoSegment,
};
use imgforge::video::domain::MarkerKind;

fn video(id: i64, file_path: &str, duration_ms: u64, offset_ms: i64, width: u32, height: u32, device: Option<&str>) -> VideoItem {
    VideoItem {
        id,
        batch_id: 1,
        file_path: file_path.to_string(),
        status: ReviewStatus::Pending,
        remark: None,
        thumbnail_path: None,
        duration_ms,
        width,
        height,
        video_codec: "h264".to_string(),
        audio_codec: None,
        bitrate_kbps: None,
        device_model: device.map(|d| d.to_string()),
        offset_ms,
        created_at: 0,
        updated_at: 0,
        deleted_at: None,
    }
}

fn grid_sample(id: i64, duration_ms: u64, offset_ms: i64) -> VideoItem {
    grid_sample_with_size(id, duration_ms, offset_ms, 1920, 1080)
}

fn grid_sample_with_size(id: i64, duration_ms: u64, offset_ms: i64, width: u32, height: u32) -> VideoItem {
    let path = format!("/tmp/v{id}.mp4");
    let device = format!("Device {id}");
    video(id, &path, duration_ms, offset_ms, width, height, Some(&device))
}

fn screenshot_sample(id: i64, duration_ms: u64) -> VideoItem {
    let path = format!("/tmp/clip_{id}.mp4");
    video(id, &path, duration_ms, 0, 1920, 1080, Some("iPhone 15"))
}

#[test]
fn large_inputs_reduce_concurrency() {
    assert_eq!(effective_concurrency(8, 40 * 1024 * 1024, 10), 2);
    assert_eq!(effective_concurrency(8, 200 * 1024 * 1024, 10), 1);
    assert_eq!(effective_concurrency(8, 1024 * 1024, 10), 8);
    assert_eq!(effective_concurrency(8, 1024, 1), 1);
}

#[test]
fn claim_ack_flow() {
    let mut q = InMemoryQueue::new();
    q.enqueue("j1", 0).unwrap();
    let claimed = q.claim("w1", 30).unwrap().unwrap();
    assert_eq!(claimed.message.job_id, "j1");
    q.ack(&claimed.lease.claim_token).unwrap();
    assert_eq!(q.pending_len().unwrap(), 0);
}

#[test]
fn rejects_after_bucket_is_empty() {
    let mut limiter = RateLimiter::new(2);
    let headers: Vec<(String, String)> = Vec::new();
    assert!(limiter.check(&headers));
    assert!(limiter.check(&headers));
    assert!(!limiter.check(&headers));
}

#[test]
fn idempotent_create_returns_same_job() {
    let mut store = InMemoryJobStore::new();
    let mut req = RemoteJobRequest::default_request();
    req.source = RemoteJobSource::Convert;
    req.workspace_id = Some("ws".into());
    req.client_request_id = Some("cr-1".into());
    let a = store.create_job(req.clone()).unwrap();
    let b = store.create_job(req).unwrap();
    assert_eq!(a.job_id, b.job_id);
    let rec = store.get_job_record(&a.job_id).unwrap();
    assert_eq!(rec.request.source, RemoteJobSource::Convert);
}

#[test]
fn structured_video_query_matches() {
    let mut item = video(1, "/tmp/black_scene.mp4", 20_000, 0, 1920, 1080, Some("iPhone 15 Pro"));
    item.status = ReviewStatus::NeedsFix;
    item.remark = Some("黑场".into());
    item.audio_codec = Some("aac".into());
    let q = VideoQuery::parse("status:待修正 duration>10s");
    assert!(q.matches(&item));
    let q = VideoQuery::parse("duration<10s");
    assert!(!q.matches(&item));
}

#[test]
fn sample_timestamps_includes_ends() {
    let range = AggregateRange { start_ms: 1000, end_ms: 5000 };
    let ts = sample_timestamps(range);
    assert!(ts.len() >= MIN_SAMPLES);
    assert_eq!(*ts.first().unwrap(), 1000);
    assert_eq!(*ts.last().unwrap(), 5000);
}

#[test]
fn sample_count_clamped() {
    assert_eq!(sample_count_for_range(100), MIN_SAMPLES);
    assert_eq!(sample_count_for_range(1_000_000), MAX_SAMPLES);
}

#[test]
fn grid_dimensions_match_compare_rules() {
    assert_eq!(grid_dimensions(2), (1, 2));
    assert_eq!(grid_dimensions(3), (2, 2));
    assert_eq!(grid_dimensions(4), (2, 2));
    assert_eq!(grid_dimensions(5), (2, 3));
    assert_eq!(grid_dimensions(6), (2, 3));
}

#[test]
fn compute_layout_sizes() {
    let layout = compute_layout(4, 480, 270);
    assert_eq!(layout.cols, 2);
    assert_eq!(layout.rows, 2);
    assert!(layout.sheet_w > 960);
    assert!(layout.sheet_h > 540);
}

#[test]
fn parse_ffprobe_device_model_from_tags() {
    let json = r#"{
      "streams": [
        {"codec_type":"video","codec_name":"h264","width":1920,"height":1080,"avg_frame_rate":"24/1"}
      ],
      "format": {
        "duration":"1",
        "tags": {"com.apple.quicktime.model":"iPhone 15 Pro"}
      }
    }"#;
    let value: serde_json::Value = serde_json::from_str(json).unwrap();
    let tags: Vec<(String, String)> = value["format"]["tags"]
        .as_object()
        .unwrap()
        .iter()
        .map(|(k, v)| (k.clone(), v.as_str().unwrap_or_default().to_string()))
        .collect();
    let device = device_model_from_tags(&tags);
    assert_eq!(device.as_deref(), Some("iPhone 15 Pro"));
}

#[test]
fn cache_key_stable() {
    let a = cache_key_hash("/tmp/v.mp4", 100, 500, 320);
    let b = cache_key_hash("/tmp/v.mp4", 100, 500, 320);
    assert_eq!(a, b);
    let c = cache_key_hash("/tmp/v.mp4", 100, 501, 320);
    assert_ne!(a, c);
}

#[test]
fn max_export_duration_respects_offset() {
    let videos = vec![grid_sample(1, 60_000, 0), grid_sample(2, 50_000, -5_000)];
    assert_eq!(max_export_duration_ms(&videos, 10_000), 45_000);
    assert_eq!(max_export_duration_ms(&videos, 50_000), 5_000);
}

#[test]
fn quality_cell_size_uses_max_source_dimensions() {
    let videos = vec![
        grid_sample_with_size(1, 60_000, 0, 1920, 1080),
        grid_sample_with_size(2, 60_000, 0, 1280, 720),
    ];
    assert_eq!(compute_quality_cell_size(&videos), (1920, 1080));
}

#[test]
fn input_filter_avoids_upscale() {
    let v = grid_sample_with_size(1, 60_000, 0, 1280, 720);
    let f = build_input_video_filter(0, &v, 1920, 1080);
    assert!(!f.contains("scale="));
    assert!(f.contains("pad=1920:1080"));
}

#[test]
fn input_filter_downscales_with_lanczos() {
    let v = grid_sample_with_size(1, 60_000, 0, 3840, 2160);
    let f = build_input_video_filter(0, &v, 1920, 1080);
    assert!(f.contains("flags=lanczos+accurate_rnd+full_chroma_int"));
    assert!(f.contains("scale=1920:1080"));
}

#[test]
fn xstack_layout_two_by_two() {
    assert_eq!(build_xstack_layout(4, 2, 640, 360), "0_0|640_0|0_360|640_360");
}

#[test]
fn filter_complex_uses_xstack() {
    let videos = vec![grid_sample(1, 60_000, 0), grid_sample(2, 60_000, 0)];
    let f = build_filter_complex(&videos, 2, 640, 360);
    assert!(f.contains("xstack=inputs=2"));
    assert!(f.contains("[0:v]"));
    assert!(f.contains("[1:v]"));
    assert!(f.contains("[outv]"));
}

#[test]
fn caption_text_prefers_device_and_falls_back_to_filename() {
    let mut v = grid_sample(1, 60_000, 0);
    assert_eq!(caption_text_for_video(&v, GridVideoCaptionMode::DeviceModel), "Device 1");
    v.device_model = None;
    assert_eq!(caption_text_for_video(&v, GridVideoCaptionMode::DeviceModel), "v1.mp4");
}

#[test]
fn caption_filter_uses_textfile_and_expands_cell_height() {
    let videos = vec![grid_sample(1, 60_000, 0), grid_sample(2, 60_000, 0)];
    let text_files = vec!["/tmp/caption 1.txt".to_string(), "/tmp/c2.txt".to_string()];
    let font = "/System/Library/Fonts/PingFang.ttc";
    let f = build_filter_complex_with_captions(&videos, 2, 640, 360, &text_files, Some(font));
    assert!(f.contains("drawtext="));
    assert!(f.contains("textfile=/tmp/caption 1.txt"));
    assert!(f.contains("pad=640:404"));
    assert!(f.contains("layout=0_0|640_0"));
}

#[test]
fn lossless_encode_uses_crf_zero_and_audio_copy() {
    let mut args: Vec<String> = Vec::new();
    append_encode_args(&mut args, GridVideoExportQuality::Lossless);
    assert!(args.windows(2).any(|w| w == ["-crf", "0"]));
    assert!(args.windows(2).any(|w| w == ["-c:a", "copy"]));
}

#[test]
fn high_encode_uses_crf_seventeen() {
    let mut args: Vec<String> = Vec::new();
    append_encode_args(&mut args, GridVideoExportQuality::High);
    assert!(args.windows(2).any(|w| w == ["-crf", "17"]));
    assert!(args.windows(2).any(|w| w == ["-c:a", "aac"]));
}

#[test]
fn render_filename_replaces_tokens() {
    let name = render_filename("{index}_{filename}_{time}_{device}.{ext}", 1, "demo clip", "00:05.000", "Pixel 8", "", "jpg");
    assert!(name.contains("001"));
    assert!(name.contains("demo_clip"));
    assert!(name.contains("Pixel_8"));
    assert!(name.ends_with(".jpg"));
}

#[test]
fn interval_shots_respect_max_limit() {
    let mut request = BatchScreenshotRequest::new(vec![screenshot_sample(1, 60_000)], ScreenshotMode::Interval, "/tmp/out".to_string());
    request.current_time_ms = 0;
    request.interval_ms = 5000;
    request.max_shots = 3;
    request.frame_width = 0;
    request.format = ScreenshotFormat::Jpeg;
    request.naming_template = "{index}.{ext}".to_string();
    request.write_csv_manifest = false;
    request.write_json_manifest = false;
    request.write_contact_sheet = false;
    let shots = plan_shots(&request);
    assert_eq!(shots.len(), 3);
    assert_eq!(shots[0].1, 0);
    assert_eq!(shots[1].1, 5000);
    assert_eq!(shots[2].1, 10000);
}

#[test]
fn segment_mode_includes_start_and_end() {
    let mut request = BatchScreenshotRequest::new(vec![screenshot_sample(1, 30_000)], ScreenshotMode::SegmentStartEnd, "/tmp/out".to_string());
    request.segments_by_video.push((
        1,
        vec![VideoSegment {
            id: 1,
            video_id: 1,
            start_ms: 1000,
            end_ms: 4000,
            text: "intro".into(),
            status: ReviewStatus::Pending,
            created_at: 0,
        }],
    ));
    let shots = plan_shots(&request);
    assert_eq!(shots.len(), 2);
    assert_eq!(shots[0].1, 1000);
    assert_eq!(shots[1].1, 4000);
}

#[test]
fn marker_mode_uses_marker_times() {
    let mut request = BatchScreenshotRequest::new(vec![screenshot_sample(1, 30_000)], ScreenshotMode::Markers, "/tmp/out".to_string());
    request.markers_by_video.push((
        1,
        vec![VideoMarker {
            id: 10,
            video_id: 1,
            time_ms: 1500,
            kind: MarkerKind::Issue,
            text: "黑场".into(),
            severity: 2,
            created_at: 0,
        }],
    ));
    let shots = plan_shots(&request);
    assert_eq!(shots.len(), 1);
    assert_eq!(shots[0].1, 1500);
    assert_eq!(shots[0].2.as_deref(), Some("黑场"));
}

#[test]
fn infers_device_model_from_common_filenames() {
    assert_eq!(infer_device_model_from_filename("/tmp/iPhone15_clip.mov").as_deref(), Some("iPhone 15"));
    assert_eq!(infer_device_model_from_filename("/tmp/Pixel8_sample.mp4").as_deref(), Some("Pixel 8"));
}

#[test]
fn sha256_hex_of_hello() {
    assert_eq!(
        sha256_hex(b"hello"),
        "sha256:2cf24dba5fb0a30e26e83b2ac5b9e29e1b161e5c1fa7425e73043362938b9824"
    );
}
