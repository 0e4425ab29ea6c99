use imgforge::video::align::{short_video_name, AlignMode, AlignQuality, VisualAlignParams};
use imgforge::video::domain::{ReviewStatus, VideoItem};

fn item(id: i64, file_path: &str) -> VideoItem {
    VideoItem {
        id,
        batch_id: 1,
        file_path: file_path.to_string(),
        status: ReviewStatus::Pending,
        remark: None,
        thumbnail_path: None,
        duration_ms: 1000,
        width: 1920,
        height: 1080,
        video_codec: "h264".to_string(),
        audio_codec: None,
        bitrate_kbps: None,
        device_model: None,
        offset_ms: 0,
        created_at: 0,
        updated_at: 0,
        deleted_at: None,
    }
}

#[test]
fn fast_quality_is_short() {
    assert!(AlignQuality::Fast.analysis_secs() < AlignQuality::Fine.analysis_secs());
    assert_eq!(AlignQuality::Fast.audio_sample_rate(), 8_000);
    assert!(!AlignQuality::Fast.visual_params().do_ncc);
    assert!(AlignQuality::Fast.use_gcc_phat());
    assert!(!AlignQuality::Fast.use_chroma());
    assert!(AlignQuality::Fine.drift_enabled());
}

#[test]
fn quality_tiers_grow_finer() {
    assert_eq!(AlignQuality::all().map(|q| q.analysis_secs()), [5, 12, 30]);
    assert_eq!(AlignQuality::Standard.audio_sample_rate(), 16_000);
    assert_eq!(AlignQuality::Fine.drift_windows(), 5);
    assert_eq!(AlignQuality::Standard.drift_windows(), 0);
    assert_eq!(AlignQuality::Fine.drift_span_secs(), 90);
    assert!(AlignQuality::Standard.audio_cascade());
    let fine = AlignQuality::Fine.visual_params();
    assert_eq!((fine.sample_ms, fine.width, fine.ncc_frames), (100, 320, 5));
    assert!(fine.enable_features);
    assert_eq!(AlignQuality::Standard.visual_params().sample_ms, 160);
    assert_eq!(AlignQuality::default(), AlignQuality::Fast);
}

#[test]
fn align_defaults_and_labels() {
    assert_eq!(AlignMode::default(), AlignMode::Auto);
    assert_eq!(AlignMode::all().map(|m| m.label()), ["自动", "音频", "画面", "特征"]);
    assert_eq!(AlignQuality::Fine.label(), "精细");
    let p = VisualAlignParams::default();
    assert_eq!((p.sample_ms, p.width, p.do_ncc, p.ncc_frames, p.enable_features), (200, 160, false, 0, false));
}

#[test]
fn short_names_cut_long_stems() {
    assert_eq!(short_video_name(&item(1, "/v/cam_a.mp4")), "cam_a");
    assert_eq!(short_video_name(&item(2, "/v/abcdefghijklmnopqr.mp4")), "abcdefghijklmnopqr");
    assert_eq!(short_video_name(&item(3, "/v/abcdefghijklmnopqrs.mp4")), "abcdefghijklmnop…");
    assert_eq!(short_video_name(&item(-4, "")), "#-4");
}
