use imgforge::video::scopes::{
    add_waveform, analyze_histogram, analyze_vectorscope, analyze_waveform, peak_xy, WaveformMode,
};

fn solid(w: u32, h: u32, px: [u8; 4]) -> Vec<u8> {
    let mut v = Vec::new();
    for _ in 0..(w * h) {
        v.extend_from_slice(&px);
    }
    v
}

fn luma709(r: u8, g: u8, b: u8) -> u8 {
    let y = 0.2126f32 * r as f32 + 0.7152f32 * g as f32 + 0.0722f32 * b as f32;
    y.round().clamp(0.0, 255.0) as u8
}

fn luma_split(r: u8, g: u8, b: u8) -> (u8, u16) {
    let y = (0.2126f32 * r as f32 + 0.7152f32 * g as f32 + 0.0722f32 * b as f32).clamp(0.0, 255.0);
    if y >= 255.0 {
        return (255, 0);
    }
    let lo = y.floor();
    (lo as u8, (((y - lo) as f64) * 1024.0).round() as u16)
}

fn splits_of(rgba: &[u8]) -> Vec<(u8, u16)> {
    rgba.chunks(4).map(|p| luma_split(p[0], p[1], p[2])).collect()
}

fn scope_xy(r: u8, g: u8, b: u8) -> (u32, u32) {
    let (rf, gf, bf) = (r as f32, g as f32, b as f32);
    let cb = (-0.114572f32 * rf - 0.385428 * gf + 0.5 * bf).round().clamp(-128.0, 127.0) as i8;
    let cr = (0.5f32 * rf - 0.454153 * gf - 0.045847 * bf).round().clamp(-128.0, 127.0) as i8;
    let half = (256f32 - 1.0) * 0.5;
    let x = ((cb as f32 / 128.0) * half + half).round().clamp(0.0, 255.0) as u32;
    let y = ((-cr as f32 / 128.0) * half + half).round().clamp(0.0, 255.0) as u32;
    (x, y)
}

fn coords_of(rgba: &[u8]) -> Vec<(u32, u32)> {
    rgba.chunks(4).map(|p| scope_xy(p[0], p[1], p[2])).collect()
}

fn levels_of(rgba: &[u8]) -> Vec<u8> {
    rgba.chunks(4).map(|p| luma709(p[0], p[1], p[2])).collect()
}

#[test]
fn white_frame_peaks_top_row() {
    let img = solid(8, 4, [255, 255, 255, 255]);
    let data = analyze_waveform(8, &img, &levels_of(&img), WaveformMode::Luma);
    // row 0 = level 255
    let top: u32 = data.bins[..8].iter().sum();
    assert!(top > 0);
}

#[test]
fn black_frame_peaks_bottom_row() {
    let img = solid(8, 4, [0, 0, 0, 255]);
    let data = analyze_waveform(8, &img, &levels_of(&img), WaveformMode::Luma);
    let bottom: u32 = data.bins[255 * 8..].iter().sum();
    assert!(bottom > 0);
}

#[test]
fn luma_waveform_counts_each_column() {
    let img = solid(8, 4, [255, 255, 255, 255]);
    let data = analyze_waveform(8, &img, &levels_of(&img), WaveformMode::Luma);
    assert_eq!(data.width, 8);
    assert_eq!(data.bins.len(), 256 * 8);
    assert_eq!(&data.bins[..8], &[4u32; 8]);
    assert_eq!(data.bins.iter().sum::<u32>(), 32);
}

#[test]
fn transparent_pixels_stay_off_the_waveform() {
    let img = solid(4, 2, [255, 255, 255, 0]);
    let data = analyze_waveform(4, &img, &levels_of(&img), WaveformMode::Luma);
    assert_eq!(data.bins.iter().sum::<u32>(), 0);
    let parade = analyze_waveform(4, &img, &[], WaveformMode::RgbParade);
    assert_eq!(parade.bins.iter().sum::<u32>(), 0);
}

#[test]
fn parade_puts_channels_side_by_side() {
    // one row of two pixels: pure red, then pure blue
    let img = vec![255, 0, 0, 255, 0, 0, 255, 255];
    let data = analyze_waveform(2, &img, &[], WaveformMode::RgbParade);
    assert_eq!(data.width, 6);
    assert_eq!(data.bins.len(), 256 * 6);
    // red channel of pixel 0 at level 255: row 0, column 0
    assert_eq!(data.bins[0], 1);
    // blue channel of pixel 1 at level 255: row 0, column 1 + 2 * 2
    assert_eq!(data.bins[5], 1);
    // green of both pixels at level 0: bottom row, columns 2 and 3
    assert_eq!(data.bins[255 * 6 + 2], 1);
    assert_eq!(data.bins[255 * 6 + 3], 1);
    assert_eq!(data.bins.iter().sum::<u32>(), 6);
}

#[test]
fn empty_image_has_one_column() {
    let data = analyze_waveform(0, &[], &[], WaveformMode::Luma);
    assert_eq!(data.width, 1);
    assert_eq!(data.bins.len(), 256);
    assert!(data.bins.iter().all(|&c| c == 0));
}

#[test]
fn waveform_sums_double_when_added_to_itself() {
    let img = solid(8, 4, [255, 255, 255, 255]);
    let one = analyze_waveform(8, &img, &levels_of(&img), WaveformMode::Luma);
    let mut raw = analyze_waveform(8, &img, &levels_of(&img), WaveformMode::Luma);
    add_waveform(&mut raw, &one);
    assert_eq!(raw.bins.iter().sum::<u32>(), one.bins.iter().sum::<u32>() * 2);
}

#[test]
fn histogram_counts_each_visible_pixel_once_per_channel() {
    let mut img = Vec::new();
    for i in 0..10u8 {
        let alpha = if i % 3 == 0 { 0 } else { 255 };
        img.extend_from_slice(&[i * 20, 255 - i, i, alpha]);
    }
    let bins = analyze_histogram(&img, &splits_of(&img));
    let visible = 10 - 4;
    assert_eq!(bins.r.iter().sum::<u32>(), visible);
    assert_eq!(bins.g.iter().sum::<u32>(), visible);
    assert_eq!(bins.b.iter().sum::<u32>(), visible);
    assert_eq!(bins.r[20], 1);
    assert_eq!(bins.r[0], 0);
}

#[test]
fn black_and_white_peaks() {
    let img = vec![0, 0, 0, 255, 255, 255, 255, 255];
    let bins = analyze_histogram(&img, &splits_of(&img));
    assert!(bins.y[0] > 0);
    assert!(bins.y[255] > 0);
    assert!(bins.r[0] > 0);
    assert!(bins.r[255] > 0);
}

#[test]
fn pure_red_peaks_red_channel() {
    let img = solid(4, 4, [255, 0, 0, 255]);
    let bins = analyze_histogram(&img, &splits_of(&img));
    assert_eq!(bins.r[255], 16);
    assert_eq!(bins.g[0], 16);
    assert_eq!(bins.b[0], 16);
}

#[test]
fn transparent_pixels_are_not_counted() {
    let rgba = vec![10, 20, 30, 0, 10, 20, 30, 1];
    let bins = analyze_histogram(&rgba, &splits_of(&rgba));
    assert_eq!(bins.r[10], 1);
    assert_eq!(bins.g[20], 1);
    assert_eq!(bins.b[30], 1);
    assert_eq!(bins.y.iter().sum::<u64>(), 1024);
}

#[test]
fn luma_is_split_between_neighbouring_bins() {
    // grey 10 has luma exactly 10: all weight in bin 10
    let img = vec![10, 10, 10, 255];
    let bins = analyze_histogram(&img, &[(10, 0)]);
    assert_eq!(bins.y[10], 1024);
    // a split of a quarter up puts three quarters in the lower bin
    let bins = analyze_histogram(&img, &[(10, 256)]);
    assert_eq!(bins.y[10], 768);
    assert_eq!(bins.y[11], 256);
    // the top bin takes the whole pixel
    let bins = analyze_histogram(&img, &[(255, 0)]);
    assert_eq!(bins.y[255], 1024);
}

#[test]
fn luma_weight_is_one_pixel_each() {
    let mut img = Vec::new();
    for i in 0..12u8 {
        img.extend_from_slice(&[i * 21, i * 7, 255 - i * 3, if i % 4 == 0 { 0 } else { 200 }]);
    }
    let bins = analyze_histogram(&img, &splits_of(&img));
    assert_eq!(bins.y.iter().sum::<u64>(), 1024 * 9);
}

#[test]
fn pure_red_in_expected_quadrant() {
    let img = solid(8, 8, [255, 0, 0, 255]);
    let data = analyze_vectorscope(&img, &coords_of(&img));
    let (x, y) = peak_xy(&data).unwrap();
    assert!(x < 128, "red x={x}");
    assert!(y < 128, "red y={y}");
}

#[test]
fn pure_blue_in_expected_quadrant() {
    let img = solid(8, 8, [0, 0, 255, 255]);
    let data = analyze_vectorscope(&img, &coords_of(&img));
    let (x, _y) = peak_xy(&data).unwrap();
    assert!(x > 128, "blue x={x}");
}

#[test]
fn vectorscope_counts_visible_pixels_where_told() {
    let img = vec![1, 2, 3, 255, 4, 5, 6, 0, 7, 8, 9, 255];
    let data = analyze_vectorscope(&img, &[(3, 2), (0, 0), (3, 2)]);
    assert_eq!(data.size, 256);
    assert_eq!(data.density.len(), 256 * 256);
    assert_eq!(data.density[2 * 256 + 3], 2);
    assert_eq!(data.density.iter().sum::<u32>(), 2);
    assert_eq!(peak_xy(&data), Some((3, 2)));
}
