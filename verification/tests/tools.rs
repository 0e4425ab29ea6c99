use imgforge::server::config::{default_data_dir, S3Config, ServerConfig};
use imgforge::server::queue::{stream_claim_token, stream_entry_job};
use imgforge::server::s3::{derive_signing_key, S3ObjectStore};
use imgforge::ui::{doctor_tool, tool_line, ProbeOutcome};
use imgforge::video::defect::{
    check_defect_videos, compare_clip_name, default_defect_output_dir, defect_folder_name, defect_frame_name,
    defect_window, estimate_steps, sanitize_slug, zip_stores_uncompressed, CreateDefectRequest,
};
use imgforge::video::grid_video::GridVideoExportQuality;
use imgforge::video::scopes::{peak_xy, VectorscopeData};
use imgforge::video::services::VideoAnalysisService;
use imgforge::video::domain::{parse_duration_ms, MarkerKind, ReviewStatus, VideoItem};
use imgforge::video::export::{
    csv_record, escape_html, format_markers, format_segments, html_report, retain_selected, VideoExportRequest,
    VideoExportRow, VideoExportSchema,
};
use imgforge::video::playback::{perf_max_w, FidelityMode, PresentMode, ScopeSampleThrottle};
use imgforge::video::services::{
    import_batch_name, import_failure_message, index_sheet_items, tally_shots, ImportSkip, ScreenshotManifestEntry,
    VideoMarker, VideoSegment,
};

fn vars(pairs: &[(&str, &str)]) -> Vec<(String, String)> {
    pairs.iter().map(|(k, v)| (k.to_string(), v.to_string())).collect()
}

fn item(id: i64) -> VideoItem {
    VideoItem {
        id,
        batch_id: 1,
        file_path: format!("/tmp/{id}.mp4"),
        status: ReviewStatus::Pending,
        remark: None,
        thumbnail_path: None,
        duration_ms: 1000,
        width: 0,
        height: 0,
        video_codec: "h264".to_string(),
        audio_codec: None,
        bitrate_kbps: None,
        device_model: None,
        offset_ms: 0,
        created_at: 0,
        updated_at: 0,
        deleted_at: None,
    }
}

fn entry(index: usize, success: bool, marker: Option<&str>) -> ScreenshotManifestEntry {
    ScreenshotManifestEntry {
        index,
        video_id: 1,
        video_path: "/tmp/a.mp4".to_string(),
        time_ms: 1000,
        time_label: "00:01.000".to_string(),
        output_path: format!("/out/{index}.jpg"),
        marker_text: marker.map(|m| m.to_string()),
        success,
        error: if success { None } else { Some("ffmpeg failed".to_string()) },
    }
}

#[test]
fn durations_parse_with_units() {
    assert_eq!(parse_duration_ms("10s"), Some(10_000));
    assert_eq!(parse_duration_ms("1.5m"), Some(90_000));
    assert_eq!(parse_duration_ms("250"), Some(250));
    assert_eq!(parse_duration_ms("250ms"), None);
    assert_eq!(parse_duration_ms("abc"), None);
}

#[test]
fn config_from_environment_pairs() {
    let c = ServerConfig::from_vars(
        &vars(&[
            ("IMGFORGE_SERVER_TOKEN", "  "),
            ("IMGFORGE_RATE_LIMIT_PER_MINUTE", "30"),
            ("IMGFORGE_MAX_UPLOAD_BYTES", "not-a-number"),
            ("IMGFORGE_DEFAULT_WORKSPACE", "team"),
            ("IMGFORGE_INLINE_WORKER", "no"),
        ]),
        "/data".to_string(),
    );
    assert!(c.auth_token.is_none());
    assert_eq!(c.rate_limit_per_minute, 30);
    assert_eq!(c.max_upload_bytes, 512 * 1024 * 1024);
    assert_eq!(c.default_workspace, "team");
    assert!(!c.inline_worker);
    assert_eq!(c.data_dir, "/data");
    assert_eq!(c.bind, "127.0.0.1:8787");
}

#[test]
fn data_dir_under_home() {
    assert_eq!(default_data_dir(Some("/home/u".to_string())), "/home/u/.imgforge/server");
    assert_eq!(default_data_dir(None), ".imgforge-server");
}

#[test]
fn signing_key_matches_published_example() {
    let key = derive_signing_key("wJalrXUtnFEMI/K7MDENG+bPxRfiCYEXAMPLEKEY", "20120215", "us-east-1", "iam");
    assert_eq!(hex::encode(key), "f4780e2d9f65fa895f9c67b32ce1baf0b0d8a43505a000a1a9e090d414db404d");
}

#[test]
fn s3_requires_endpoint_first_and_presigns() {
    let mut s3 = S3Config::empty();
    let e = S3ObjectStore::from_config(&s3, "http://pub".to_string()).unwrap_err();
    assert_eq!(e, "s3.endpoint required");
    s3.endpoint = Some("https://s3.example.com/".to_string());
    s3.bucket = Some("bkt".to_string());
    s3.access_key = Some("AK".to_string());
    s3.secret_key = Some("SK".to_string());
    let store = S3ObjectStore::from_config(&s3, "http://pub".to_string()).unwrap();
    let url = store.presign("GET", "a b.png", 600, "20240102T030405Z");
    assert!(url.starts_with("https://s3.example.com/bkt/a b.png?X-Amz-Algorithm=AWS4-HMAC-SHA256"));
    assert!(url.contains("X-Amz-Credential=AK%2F20240102%2Fus-east-1%2Fs3%2Faws4_request"));
    assert!(url.contains("&X-Amz-Date=20240102T030405Z&X-Amz-Expires=600&X-Amz-SignedHeaders=host"));
    let sig = url.split("X-Amz-Signature=").nth(1).unwrap();
    assert_eq!(sig.len(), 64);
    assert!(sig.chars().all(|c| c.is_ascii_hexdigit() && !c.is_ascii_uppercase()));
    let again = store.presign("GET", "a b.png", 600, "20240102T030405Z");
    assert_eq!(url, again);
    let put = store.presign_put("k.png", 0).unwrap();
    assert!(put.starts_with("https://s3.example.com/bkt/k.png?X-Amz-Algorithm=AWS4-HMAC-SHA256"));
    assert!(put.contains("&X-Amz-Expires=1&"));
    let get = store.presign_get("/k.png", 60).unwrap();
    assert!(get.starts_with("https://s3.example.com/bkt/k.png?"));
    assert!(get.contains("&X-Amz-Expires=60&"));
}

#[test]
fn export_schema_enables_listed_keys() {
    let schema = VideoExportSchema::default_schema();
    assert_eq!(schema.enabled_keys().len(), 13);
    let schema = schema.with_enabled_keys(&vec!["status".to_string(), "tags".to_string()]);
    assert_eq!(schema.enabled_keys(), vec!["status".to_string(), "tags".to_string()]);
    let schema = schema.with_enabled_keys(&Vec::new());
    assert_eq!(schema.enabled_keys().len(), 2);
}

#[test]
fn export_keeps_selected_videos() {
    let request = VideoExportRequest::new(1, "/tmp/out.csv".to_string()).selected(vec![2]);
    let kept = retain_selected(vec![item(1), item(2), item(3)], &request.selected_ids);
    assert_eq!(kept.len(), 1);
    assert_eq!(kept[0].id, 2);
    let all = retain_selected(vec![item(1), item(2)], &None);
    assert_eq!(all.len(), 2);
}

#[test]
fn markers_and_segments_are_formatted() {
    let markers = vec![
        VideoMarker { id: 1, video_id: 1, time_ms: 1500, kind: MarkerKind::Issue, text: "黑场".to_string(), severity: 2, created_at: 0 },
        VideoMarker { id: 2, video_id: 1, time_ms: 61_000, kind: MarkerKind::Note, text: "ok".to_string(), severity: 0, created_at: 0 },
    ];
    let short = format_markers(&markers, false);
    let long = format_markers(&markers, true);
    assert_eq!(short.matches("; ").count(), 1);
    assert!(short.starts_with("问题@"));
    assert!(long.contains(" sev=2 黑场"));
    assert_eq!(format_markers(&Vec::new(), false), "");
    let segments = vec![VideoSegment { id: 1, video_id: 1, start_ms: 0, end_ms: 2000, text: "x".to_string(), status: ReviewStatus::Pending, created_at: 0 }];
    let s = format_segments(&segments);
    assert!(s.starts_with('[') && s.ends_with(']') && s.contains('-'));
}

#[test]
fn html_is_escaped_and_reported() {
    assert_eq!(escape_html("a<b>&\"c\""), "a&lt;b&gt;&amp;&quot;c&quot;");
    let rows = vec![VideoExportRow { video_id: 1, cells: vec![("remark".to_string(), "<x>".to_string())] }];
    let keys = vec!["remark".to_string(), "missing".to_string()];
    let record = csv_record(&rows[0], &keys);
    assert_eq!(record, vec!["<x>".to_string(), String::new()]);
    let html = html_report(&rows, &keys);
    assert!(html.contains("视频数：1</p>"));
    assert!(html.contains("<th>remark</th><th>missing</th>"));
    assert!(html.contains("<tr><td>&lt;x&gt;</td><td></td></tr>"));
    assert!(html.ends_with("</body></html>"));
}

#[test]
fn playback_caps_and_labels() {
    assert_eq!(perf_max_w(2, true, true, true), 960);
    assert_eq!(perf_max_w(2, false, true, true), 1920);
    assert_eq!(perf_max_w(4, false, false, true), 1600);
    assert_eq!(perf_max_w(9, false, true, true), 1280);
    assert_eq!(perf_max_w(0, false, true, true), 1280);
    assert_eq!(FidelityMode::default().short_status(), "perf");
    assert_eq!(FidelityMode::Native.label(), "原片");
    assert_eq!(PresentMode::Gl.label(), "GL");
}

#[test]
fn scope_throttle_skips_repeated_time_while_playing() {
    let mut t = ScopeSampleThrottle::with_interval(10);
    assert!(t.should_sample(100, false, false));
    assert_eq!(t.last_sampled_ms(), Some(100));
    assert!(!t.should_sample(100, true, false));
    assert!(t.should_sample(100, true, true));
    let mut fresh = ScopeSampleThrottle::default();
    assert!(fresh.should_sample(5, true, false));
}

#[test]
fn screenshot_tally_and_index_items() {
    let entries = vec![entry(1, true, Some("黑场")), entry(2, false, None), entry(3, true, None)];
    let items = index_sheet_items(&entries);
    assert_eq!(items, vec![
        ("/out/1.jpg".to_string(), "00:01.000 · 黑场".to_string()),
        ("/out/3.jpg".to_string(), "00:01.000".to_string()),
    ]);
    let result = tally_shots(3, entries);
    assert_eq!(result.requested, 3);
    assert_eq!(result.succeeded, 2);
    assert_eq!(result.failed, 1);
    assert_eq!(result.output_files, vec!["/out/1.jpg".to_string(), "/out/3.jpg".to_string()]);
}

#[test]
fn import_names_and_failures() {
    assert_eq!(import_batch_name(Some("given"), "/videos/day1"), "given");
    assert_eq!(import_batch_name(None, "/videos/day1"), "day1");
    assert_eq!(import_failure_message(&Vec::new()), "未能读取任何视频元数据，请确认已安装 ffprobe");
    let skipped: Vec<ImportSkip> = (1..=4)
        .map(|i| ImportSkip { path: format!("/v/{i}.mp4"), reason: "bad".to_string() })
        .collect();
    assert_eq!(
        import_failure_message(&skipped),
        "未能导入任何视频（跳过 4 个）。示例：/v/1.mp4 (bad)；/v/2.mp4 (bad)；/v/3.mp4 (bad)"
    );
}

#[test]
fn stream_entries_name_their_job() {
    let fields = vec![("attempt".to_string(), "2".to_string()), ("job_id".to_string(), "job-5".to_string())];
    assert_eq!(stream_entry_job(&fields), Some(("job-5".to_string(), 2)));
    let bad_attempt = vec![("job_id".to_string(), "job-6".to_string()), ("attempt".to_string(), "x".to_string())];
    assert_eq!(stream_entry_job(&bad_attempt), Some(("job-6".to_string(), 0)));
    assert_eq!(stream_entry_job(&vec![("attempt".to_string(), "1".to_string())]), None);
    assert_eq!(stream_claim_token("1-0", "abc"), "1-0:abc");
}

#[test]
fn doctor_tool_states() {
    let t = doctor_tool("ffmpeg", false, ProbeOutcome::SpawnFailed("x".to_string()));
    assert!(!t.available);
    assert_eq!(t.detail, "not required (feature disabled)");
    assert_eq!(tool_line("ffmpeg", &t), "  ffmpeg           not required (feature disabled)");
    let ok = doctor_tool(
        "ffmpeg",
        true,
        ProbeOutcome::Exited { success: true, code: Some(0), stdout: "ffmpeg version 6.1\r\nbuilt with gcc\n".to_string() },
    );
    assert!(ok.available);
    assert_eq!(ok.detail, "ffmpeg version 6.1");
    assert_eq!(tool_line("ffmpeg", &ok), "  ffmpeg           available (ffmpeg version 6.1)");
    let empty = doctor_tool("x", true, ProbeOutcome::Exited { success: true, code: Some(0), stdout: String::new() });
    assert_eq!(empty.detail, "available");
    let failed = doctor_tool("x", true, ProbeOutcome::Exited { success: false, code: None, stdout: String::new() });
    assert_eq!(failed.detail, "exit -1");
    assert_eq!(tool_line("x", &failed), "  x                unavailable (exit -1)");
}

#[test]
fn suggests_low_fps_and_missing_audio() {
    let mut v = item(1);
    v.width = 1920;
    v.height = 1080;
    v.duration_ms = 30_000;
    let fps = 12.0f32;
    let note = if fps > 0.0 && fps < 20.0 { Some(format!("低帧率：{:.2} fps", fps)) } else { None };
    let suggestions = VideoAnalysisService::suggest_for_video(&v, note);
    assert!(suggestions.iter().any(|s| s.text.contains("低帧率")));
    assert!(suggestions.iter().any(|s| s.text.contains("音频")));
}

#[test]
fn suggestions_follow_rule_order() {
    let mut v = item(7);
    v.width = 320;
    v.height = 240;
    v.duration_ms = 700_000;
    v.audio_codec = Some("aac".to_string());
    v.remark = Some("BLACK frames".to_string());
    let s = VideoAnalysisService::suggest_for_video(&v, None);
    assert_eq!(s.len(), 3);
    assert_eq!(s[0].text, "低分辨率：320×240");
    assert_eq!(s[0].severity, 1);
    assert_eq!(s[1].time_ms, 350_000);
    assert_eq!(s[1].tag_hint.as_deref(), Some("长素材"));
    assert_eq!(s[2].tag_hint.as_deref(), Some("黑场"));
    assert!(s.iter().all(|x| x.video_id == 7));
}

#[test]
fn vectorscope_peak_is_last_densest_cell() {
    let mut density = vec![0u32; 16];
    density[5] = 3;
    density[9] = 3;
    let data = VectorscopeData { size: 4, density };
    assert_eq!(peak_xy(&data), Some((1, 2)));
    let empty = VectorscopeData { size: 4, density: vec![0u32; 16] };
    assert_eq!(peak_xy(&empty), None);
}

#[test]
fn defect_package_naming_and_steps() {
    assert_eq!(sanitize_slug("  flicker: scene/2 * ok "), "flicker__scene_2___ok");
    assert_eq!(sanitize_slug("___"), "");
    assert_eq!(sanitize_slug("abcdefghijklmnopqrstuvwxyz"), "abcdefghijklmnopqrstuvwx");
    assert_eq!(defect_folder_name("", "20240101_000000"), "defect_20240101_000000");
    assert_eq!(defect_folder_name("x", "s"), "defect_x_s");
    assert_eq!(compare_clip_name(GridVideoExportQuality::Lossless), "compare_clip_lossless.mp4");
    assert_eq!(compare_clip_name(GridVideoExportQuality::High), "compare_clip.mp4");
    assert_eq!(defect_window(3_000, 100), (500, 2_500, 1_000));
    assert_eq!(defect_window(100, 5_000), (5_000, 0, 10_000));
    assert!(zip_stores_uncompressed("sources/a.mp4"));
    assert!(!zip_stores_uncompressed("frames/1_a.jpg"));
    let mut v = item(3);
    v.file_path = "/clips/take 1.mov".to_string();
    assert_eq!(defect_frame_name(&v), "3_take 1.jpg");
    assert_eq!(default_defect_output_dir(&vec![v.clone()]), "/clips");
    assert_eq!(default_defect_output_dir(&Vec::new()), ".");
    let mut req = CreateDefectRequest::default();
    assert!(check_defect_videos(&req).is_err());
    req.videos = vec![item(1), item(2)];
    assert!(check_defect_videos(&req).is_ok());
    assert_eq!(estimate_steps(&req), 1 + 1 + 1 + 2 + 2 + 1 + 1 + 2);
    req.apply_light_preset();
    assert!(!req.include_sources);
    assert_eq!(estimate_steps(&req), 1 + 1 + 1 + 2 + 1 + 1 + 2);
}
