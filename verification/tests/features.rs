use imgforge::video::features::{
    brief_desc, detect_fast, hamming, match_brief_inliers, search_feature_lag, FeatureLag, GrayFrame,
};

fn frame(w: u32, h: u32, f: impl Fn(u32, u32) -> u8) -> GrayFrame {
    let mut pixels = Vec::new();
    for y in 0..h {
        for x in 0..w {
            pixels.push(f(x, y));
        }
    }
    GrayFrame { width: w, height: h, pixels }
}

#[test]
fn brief_hamming_self_zero() {
    let mut pixels = Vec::new();
    for i in 0..(64 * 64) {
        pixels.push(((i * 13) % 255) as u8);
    }
    let a = GrayFrame { width: 64, height: 64, pixels };
    let d = brief_desc(&a, 32, 32);
    assert_eq!(hamming(&d, &d), 0);
}

#[test]
fn hamming_counts_differing_bits() {
    let a = vec![0u8; 32];
    let mut b = vec![0u8; 32];
    b[0] = 0b1011_0001;
    b[31] = 0xff;
    assert_eq!(hamming(&a, &b), 4 + 8);
    assert_eq!(hamming(&b, &a), 12);
    let c = vec![0xffu8; 32];
    assert_eq!(hamming(&a, &c), 256);
}

#[test]
fn flat_frame_has_no_corners() {
    let f = frame(64, 64, |_, _| 128);
    assert!(detect_fast(&f, 20, 80).is_empty());
}

#[test]
fn small_frames_have_no_corners() {
    let f = frame(15, 64, |x, y| if x % 8 == 3 && y % 8 == 3 { 200 } else { 0 });
    assert!(detect_fast(&f, 20, 80).is_empty());
}

#[test]
fn isolated_bright_dot_is_a_corner() {
    // a single bright pixel at (7, 7) on a dark frame: all sixteen circle pixels are darker
    let f = frame(32, 32, |x, y| if x == 7 && y == 7 { 200 } else { 0 });
    let pts = detect_fast(&f, 20, 80);
    assert_eq!(pts, vec![(7, 7)]);
}

#[test]
fn corners_come_in_scan_order_and_are_capped() {
    let f = frame(64, 64, |x, y| if x % 8 == 3 && y % 8 == 3 { 200 } else { 0 });
    let all = detect_fast(&f, 20, 1000);
    assert!(all.len() > 4);
    for w in all.windows(2) {
        assert!((w[0].1, w[0].0) < (w[1].1, w[1].0));
    }
    let capped = detect_fast(&f, 20, 3);
    assert_eq!(capped, all[..3].to_vec());
}

#[test]
fn identical_frames_match_their_corners() {
    let f = frame(64, 64, |x, y| if x % 8 == 3 && y % 8 == 3 { (x * 3 + y * 5) as u8 + 60 } else { (x ^ y) as u8 % 7 });
    let n = detect_fast(&f, 20, 80).len();
    assert!(n >= 4);
    let g = GrayFrame { width: f.width, height: f.height, pixels: f.pixels.clone() };
    let good = match_brief_inliers(&f, &g);
    assert!(good <= n);
    assert!(good > 0);
}

#[test]
fn too_few_corners_match_nothing() {
    let f = frame(32, 32, |x, y| if x == 7 && y == 7 { 200 } else { 0 });
    let g = frame(32, 32, |_, _| 0);
    assert_eq!(match_brief_inliers(&f, &f), 0);
    assert_eq!(match_brief_inliers(&f, &g), 0);
}

fn textured() -> GrayFrame {
    frame(64, 64, |x, y| if x % 8 == 3 && y % 8 == 3 { (x * 3 + y * 5) as u8 + 60 } else { (x ^ y) as u8 % 7 })
}

fn copies(n: usize) -> Vec<GrayFrame> {
    (0..n).map(|_| textured()).collect()
}

#[test]
fn lag_search_needs_four_frames_each() {
    assert_eq!(search_feature_lag(&copies(3), &copies(8), 0, 0, 200), None);
    assert_eq!(search_feature_lag(&copies(8), &copies(2), 0, 0, 200), None);
}

#[test]
fn equal_scores_keep_the_first_candidate() {
    let one = match_brief_inliers(&textured(), &textured());
    let r = search_feature_lag(&copies(4), &copies(4), 0, 0, 200).unwrap();
    if one > 0 {
        // every candidate scores the same: the first (8 steps early) wins, the next ties
        assert_eq!(r, FeatureLag { offset_ms: -1600, best_score: 3 * one, second_score: 3 * one });
    } else {
        assert_eq!(r, FeatureLag { offset_ms: 0, best_score: 0, second_score: 0 });
    }
}

#[test]
fn candidates_beyond_the_lag_limit_are_skipped() {
    // with 2 s steps only the lags within 15 s are tried: seed 10 puts all of them out of reach
    let r = search_feature_lag(&copies(4), &copies(4), 1234, 10, 2000).unwrap();
    let one = match_brief_inliers(&textured(), &textured());
    if one > 0 {
        assert_eq!(r.offset_ms, 4000);
    } else {
        assert_eq!(r.offset_ms, 1234);
    }
    let none = search_feature_lag(&copies(4), &copies(4), 1234, 100, 2000).unwrap();
    assert_eq!(none, FeatureLag { offset_ms: 1234, best_score: 0, second_score: 0 });
}
