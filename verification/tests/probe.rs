use imgforge::video::services::{summarize_probe, ProbeFormat, ProbeReport, ProbeStream};

fn stream(kind: &str, codec: Option<&str>, size: Option<(u32, u32)>, tags: &[(&str, &str)]) -> ProbeStream {
    ProbeStream {
        codec_type: Some(kind.to_string()),
        codec_name: codec.map(|c| c.to_string()),
        width: size.map(|s| s.0),
        height: size.map(|s| s.1),
        tags: tags.iter().map(|(k, v)| (k.to_string(), v.to_string())).collect(),
    }
}

#[test]
fn probe_minimal_report() {
    // {"streams":[{video h264 1920x1080},{audio aac}],"format":{"duration":"120.5","bit_rate":"8000000"}}
    let report = ProbeReport {
        format: Some(ProbeFormat { duration_ms: Some(120_500), bit_rate: Some("8000000".to_string()), tags: vec![] }),
        streams: Some(vec![
            stream("video", Some("h264"), Some((1920, 1080)), &[]),
            stream("audio", Some("aac"), None, &[]),
        ]),
    };
    let s = summarize_probe(&report);
    assert_eq!(s.metadata.duration_ms, 120_500);
    assert_eq!(s.metadata.width, 1920);
    assert_eq!(s.metadata.height, 1080);
    assert_eq!(s.metadata.video_codec, "h264");
    assert_eq!(s.metadata.audio_codec.as_deref(), Some("aac"));
    assert_eq!(s.metadata.bitrate_kbps, Some(8000));
    assert_eq!(s.video_stream, Some(0));
    assert_eq!(s.device_model, None);
}

#[test]
fn probe_device_from_format_tags() {
    let report = ProbeReport {
        format: Some(ProbeFormat {
            duration_ms: Some(1000),
            bit_rate: None,
            tags: vec![("com.apple.quicktime.model".to_string(), "iPhone 15 Pro".to_string())],
        }),
        streams: Some(vec![stream("video", Some("h264"), Some((1920, 1080)), &[("encoder", "Lavf")])]),
    };
    let s = summarize_probe(&report);
    assert_eq!(s.device_model.as_deref(), Some("iPhone 15 Pro"));
    assert_eq!(s.metadata.bitrate_kbps, None);
}

#[test]
fn probe_device_falls_back_to_stream_tags() {
    let report = ProbeReport {
        format: None,
        streams: Some(vec![
            stream("audio", None, None, &[]),
            stream("audio", Some("opus"), None, &[("encoder", "Pixel Camera")]),
            stream("video", Some("hevc"), None, &[("make", "Acme")]),
            stream("video", Some("av1"), Some((640, 480)), &[]),
        ]),
    };
    let s = summarize_probe(&report);
    // no format section: no duration
    assert_eq!(s.metadata.duration_ms, 0);
    // the first audio stream names no codec, so the second one sets it
    assert_eq!(s.metadata.audio_codec.as_deref(), Some("opus"));
    // the first video stream gives no width, so the next one sets the picture
    assert_eq!((s.metadata.width, s.metadata.height), (640, 480));
    assert_eq!(s.metadata.video_codec, "av1");
    assert_eq!(s.video_stream, Some(3));
    assert_eq!(s.device_model.as_deref(), Some("Pixel Camera"));
}

#[test]
fn probe_bad_bit_rate_is_ignored() {
    let report = ProbeReport {
        format: Some(ProbeFormat { duration_ms: None, bit_rate: Some("fast".to_string()), tags: vec![] }),
        streams: None,
    };
    let s = summarize_probe(&report);
    assert_eq!(s.metadata.bitrate_kbps, None);
    assert_eq!(s.metadata.width, 0);
    assert_eq!(s.metadata.video_codec, "");
    assert_eq!(s.video_stream, None);
}
