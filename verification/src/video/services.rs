//! Services of video review: ffmpeg arguments and time stamps, device models from metadata
//! tags and file names, screenshot planning and naming, frame-cache names, batch results and
//! tag suggestions. Processes, files and the database are handled by the caller.
use vstd::prelude::*;
use std::hash::{Hash, Hasher};

use crate::paths::{extension, extension_of, file_name, file_name_of, file_stem, file_stem_of, opt_chars};
use crate::server::config::join_path;
use crate::text::{
    chars_of, chars_of_string, contains, contains_exec, decimal, eq_vec, is_alnum_ascii,
    is_alnum_ascii_exec, is_white_space, is_white_space_exec, lower, lower_vec, push_all,
    push_decimal, push_decimal_padded, push_str, replace_all, replace_all_vec, slice_vec,
    split_ws, split_ws_vec, starts_with, starts_with_exec, string_from_chars, string_of, trim,
    trim_vec, views, zero_pad, parse_unsigned,
};
use crate::video::domain::{effective_time_spec, MarkerKind, ReviewStatus, VideoItem};
use crate::video::grid_video::{seconds_spec, string_views};

verus! {

// ---------------------------------------------------------------------------
// ffmpeg
// ---------------------------------------------------------------------------

/// Where the ffmpeg tools are.
#[derive(Debug)]
pub struct FfmpegConfig {
    pub ffmpeg_path: String,
    pub ffprobe_path: String,
}

impl FfmpegConfig {
    /// `ffmpeg` and `ffprobe` from the search path.
    pub fn default_config() -> (r: Self)
        ensures
            r.ffmpeg_path@ == "ffmpeg"@,
            r.ffprobe_path@ == "ffprobe"@,
    {
        FfmpegConfig { ffmpeg_path: string_of("ffmpeg"), ffprobe_path: string_of("ffprobe") }
    }
}

/// Which tools answered, and their version lines.
#[derive(Debug)]
pub struct FfmpegAvailability {
    pub ffmpeg_ok: bool,
    pub ffprobe_ok: bool,
    pub ffmpeg_version: Option<String>,
    pub ffprobe_version: Option<String>,
}

/// The ffmpeg back end: its tools and, once checked, their availability.
#[derive(Debug)]
pub struct FfmpegBackend {
    pub config: FfmpegConfig,
    pub availability: Option<FfmpegAvailability>,
}

impl FfmpegBackend {
    pub fn new(config: FfmpegConfig) -> (r: Self)
        ensures
            r.config == config,
            r.availability is None,
    {
        FfmpegBackend { config, availability: None }
    }

    pub fn with_defaults() -> (r: Self)
        ensures
            r.config.ffmpeg_path@ == "ffmpeg"@,
            r.config.ffprobe_path@ == "ffprobe"@,
            r.availability is None,
    {
        Self::new(FfmpegConfig::default_config())
    }
}

/// `MM:SS.mmm`, or `HH:MM:SS.mmm` from an hour on.
pub open spec fn timestamp_spec(ms: nat) -> Seq<char> {
    let total = ms / 1000;
    let h = total / 3600;
    let m = (total % 3600) / 60;
    let s = total % 60;
    let frac = ms % 1000;
    let tail = zero_pad(decimal(m), 2) + ":"@ + zero_pad(decimal(s), 2) + "."@ + zero_pad(decimal(frac), 3);
    if h > 0 {
        zero_pad(decimal(h), 2) + ":"@ + tail
    } else {
        tail
    }
}

pub fn ms_to_timestamp(ms: u64) -> (r: String)
    ensures
        r@ == timestamp_spec(ms as nat),
{
    let total = ms / 1000;
    let h = total / 3600;
    let m = (total % 3600) / 60;
    let s = total % 60;
    let frac = ms % 1000;
    let mut out: Vec<char> = Vec::new();
    if h > 0 {
        push_decimal_padded(&mut out, h, 2);
        push_str(&mut out, ":");
    }
    push_decimal_padded(&mut out, m, 2);
    push_str(&mut out, ":");
    push_decimal_padded(&mut out, s, 2);
    push_str(&mut out, ".");
    push_decimal_padded(&mut out, frac, 3);
    string_from_chars(&out)
}

fn push_arg(args: &mut Vec<String>, a: &str)
    ensures
        string_views(final(args)@) == string_views(old(args)@).push(a@),
{
    let ghost before = string_views(args@);
    args.push(string_of(a));
    assert(string_views(args@) =~= before.push(a@));
}

/// ffmpeg arguments that write the frame of `path` at `time_ms` to `output`, scaled to
/// `width` (keeping the aspect, even height) when a width is given.
pub open spec fn frame_args_spec(path: Seq<char>, time_ms: nat, width: nat, output: Seq<char>) -> Seq<Seq<char>> {
    seq!["-hide_banner"@, "-loglevel"@, "error"@, "-ss"@, seconds_spec(time_ms), "-i"@, path, "-frames:v"@, "1"@]
        + (if width > 0 { seq!["-vf"@, "scale="@ + decimal(width) + ":-2"@] } else { Seq::empty() })
        + seq!["-y"@, output]
}

pub fn frame_extract_args(path: &str, time_ms: u64, width: u32, output: &str) -> (r: Vec<String>)
    ensures
        string_views(r@) == frame_args_spec(path@, time_ms as nat, width as nat, output@),
{
    let mut args: Vec<String> = Vec::new();
    push_arg(&mut args, "-hide_banner");
    push_arg(&mut args, "-loglevel");
    push_arg(&mut args, "error");
    push_arg(&mut args, "-ss");
    let secs = crate::video::grid_video::seconds_arg(time_ms);
    push_arg(&mut args, secs.as_str());
    push_arg(&mut args, "-i");
    push_arg(&mut args, path);
    push_arg(&mut args, "-frames:v");
    push_arg(&mut args, "1");
    if width > 0 {
        push_arg(&mut args, "-vf");
        let mut sc: Vec<char> = Vec::new();
        push_str(&mut sc, "scale=");
        push_decimal(&mut sc, width as u64);
        push_str(&mut sc, ":-2");
        let scs = string_from_chars(&sc);
        push_arg(&mut args, scs.as_str());
    }
    push_arg(&mut args, "-y");
    push_arg(&mut args, output);
    proof {
        assert(string_views(args@) =~= frame_args_spec(path@, time_ms as nat, width as nat, output@));
    }
    args
}

/// The trimmed, non-blank value of the first tag whose key equals `key` in any ASCII case.
pub open spec fn tag_value(tags: Seq<(String, String)>, key: Seq<char>) -> Option<Seq<char>>
    decreases tags.len(),
{
    if tags.len() == 0 {
        None
    } else if lower(tags[0].0@) == lower(key) {
        if trim(tags[0].1@).len() > 0 { Some(trim(tags[0].1@)) } else { None }
    } else {
        tag_value(tags.drop_first(), key)
    }
}

fn tag_value_exec(tags: &Vec<(String, String)>, key: &str) -> (r: Option<Vec<char>>)
    ensures
        (match r {
            Some(v) => Some(v@),
            None => None,
        }) == tag_value(tags@, key@),
{
    let k = lower_vec(&chars_of(key));
    let mut i: usize = 0;
    assert(tags@.subrange(0, tags@.len() as int) =~= tags@);
    while i < tags.len()
        invariant
            i <= tags@.len(),
            k@ == lower(key@),
            tag_value(tags@, key@) == tag_value(tags@.subrange(i as int, tags@.len() as int), key@),
        decreases tags@.len() - i,
    {
        proof {
            let rest = tags@.subrange(i as int, tags@.len() as int);
            assert(rest[0] == tags@[i as int]);
            assert(rest.drop_first() =~= tags@.subrange(i + 1, tags@.len() as int));
        }
        let tk = lower_vec(&chars_of_string(&tags[i].0));
        if eq_vec(&tk, &k) {
            let v = trim_vec(&chars_of_string(&tags[i].1));
            if v.len() > 0 {
                return Some(v);
            } else {
                return None;
            }
        }
        i += 1;
    }
    None
}

/// The first of several tags that is set.
pub open spec fn first_tag(tags: Seq<(String, String)>, keys: Seq<Seq<char>>) -> Option<Seq<char>>
    decreases keys.len(),
{
    if keys.len() == 0 {
        None
    } else {
        match tag_value(tags, keys[0]) {
            Some(v) => Some(v),
            None => first_tag(tags, keys.drop_first()),
        }
    }
}

/// The device of a recording from its metadata tags: the model (prefixed by the make when
/// it does not already name it), else the encoder or recording software.
pub open spec fn device_from_tags_spec(tags: Seq<(String, String)>) -> Option<Seq<char>> {
    let make = tag_value(tags, "make"@);
    let model = first_tag(tags, seq!["model"@, "com.apple.quicktime.model"@, "com.android.model"@]);
    match model {
        Some(m) => match make {
            Some(mk) => if !contains(lower(m), lower(mk)) { Some(mk + " "@ + m) } else { Some(m) },
            None => Some(m),
        },
        None => first_tag(tags, seq!["encoder"@, "com.apple.quicktime.software"@]),
    }
}

/// The device model in metadata tags, given in the order of their map (by key).
pub fn device_model_from_tags(tags: &Vec<(String, String)>) -> (r: Option<String>)
    ensures
        (match r {
            Some(s) => Some(s@),
            None => None,
        }) == device_from_tags_spec(tags@),
{
    let make = tag_value_exec(tags, "make");
    let model = match tag_value_exec(tags, "model") {
        Some(m) => Some(m),
        None => match tag_value_exec(tags, "com.apple.quicktime.model") {
            Some(m) => Some(m),
            None => tag_value_exec(tags, "com.android.model"),
        },
    };
    proof {
        let keys = seq!["model"@, "com.apple.quicktime.model"@, "com.android.model"@];
        assert(keys.drop_first() =~= seq!["com.apple.quicktime.model"@, "com.android.model"@]);
        assert(keys.drop_first().drop_first() =~= seq!["com.android.model"@]);
        assert(keys.drop_first().drop_first().drop_first() =~= Seq::<Seq<char>>::empty());
        let keys2 = seq!["encoder"@, "com.apple.quicktime.software"@];
        assert(keys2.drop_first() =~= seq!["com.apple.quicktime.software"@]);
        assert(keys2.drop_first().drop_first() =~= Seq::<Seq<char>>::empty());
        reveal_with_fuel(first_tag, 4);
        assert(first_tag(tags@, keys) == (match tag_value(tags@, "model"@) {
            Some(v) => Some(v),
            None => match tag_value(tags@, "com.apple.quicktime.model"@) {
                Some(v) => Some(v),
                None => tag_value(tags@, "com.android.model"@),
            },
        }));
        assert(first_tag(tags@, keys2) == (match tag_value(tags@, "encoder"@) {
            Some(v) => Some(v),
            None => tag_value(tags@, "com.apple.quicktime.software"@),
        }));
    }
    match model {
        Some(m) => {
            match make {
                Some(mk) => {
                    if !contains_exec(&lower_vec(&m), &lower_vec(&mk)) {
                        let mut out = mk;
                        push_str(&mut out, " ");
                        push_all(&mut out, &m);
                        Some(string_from_chars(&out))
                    } else {
                        Some(string_from_chars(&m))
                    }
                },
                None => Some(string_from_chars(&m)),
            }
        },
        None => match tag_value_exec(tags, "encoder") {
            Some(e) => Some(string_from_chars(&e)),
            None => match tag_value_exec(tags, "com.apple.quicktime.software") {
                Some(s) => Some(string_from_chars(&s)),
                None => None,
            },
        },
    }
}

// ---------------------------------------------------------------------------
// Device models from file names
// ---------------------------------------------------------------------------

/// The device that one word of a file name names: `iPhone…`, `Pixel…` or `Galaxy…` (in any
/// case) followed by more characters.
pub open spec fn device_in_token(t: Seq<char>) -> Option<Seq<char>> {
    let l = lower(t);
    if starts_with(l, "iphone"@) && t.len() > 6 {
        Some("iPhone "@ + t.subrange(6, t.len() as int))
    } else if starts_with(l, "pixel"@) && t.len() > 5 {
        Some("Pixel "@ + t.subrange(5, t.len() as int))
    } else if starts_with(l, "galaxy"@) && t.len() > 6 {
        Some("Galaxy "@ + t.subrange(6, t.len() as int))
    } else {
        None
    }
}

/// The device of the first word that names one.
pub open spec fn device_in_tokens(toks: Seq<Seq<char>>) -> Option<Seq<char>>
    decreases toks.len(),
{
    if toks.len() == 0 {
        None
    } else {
        match device_in_token(toks[0]) {
            Some(d) => Some(d),
            None => device_in_tokens(toks.drop_first()),
        }
    }
}

/// The stem with `-`, `_` and `.` read as spaces.
pub open spec fn normalized_stem(stem: Seq<char>) -> Seq<char> {
    replace_all(replace_all(replace_all(stem, seq!['-'], seq![' ']), seq!['_'], seq![' ']), seq!['.'], seq![' '])
}

pub open spec fn device_from_name_spec(path: Seq<char>) -> Option<Seq<char>> {
    match file_stem_of(path) {
        Some(stem) => device_in_tokens(split_ws(normalized_stem(stem))),
        None => None,
    }
}

fn device_in_token_exec(t: &Vec<char>) -> (r: Option<Vec<char>>)
    ensures
        (match r {
            Some(v) => Some(v@),
            None => None,
        }) == device_in_token(t@),
{
    let l = lower_vec(t);
    proof {
        reveal_strlit("iphone");
        reveal_strlit("pixel");
        reveal_strlit("galaxy");
    }
    if starts_with_exec(&l, &chars_of("iphone")) && t.len() > 6 {
        let mut out = chars_of("iPhone ");
        push_all(&mut out, &slice_vec(t, 6, t.len()));
        Some(out)
    } else if starts_with_exec(&l, &chars_of("pixel")) && t.len() > 5 {
        let mut out = chars_of("Pixel ");
        push_all(&mut out, &slice_vec(t, 5, t.len()));
        Some(out)
    } else if starts_with_exec(&l, &chars_of("galaxy")) && t.len() > 6 {
        let mut out = chars_of("Galaxy ");
        push_all(&mut out, &slice_vec(t, 6, t.len()));
        Some(out)
    } else {
        None
    }
}

/// Guesses the recording device from a file name such as `iPhone15_clip.mov`.
pub fn infer_device_model_from_filename(path: &str) -> (r: Option<String>)
    ensures
        (match r {
            Some(s) => Some(s@),
            None => None,
        }) == device_from_name_spec(path@),
{
    let stem = match file_stem(path) {
        Some(s) => chars_of_string(&s),
        None => return None,
    };
    let space = vec![' '];
    let dash = vec!['-'];
    let under = vec!['_'];
    let dot = vec!['.'];
    proof {
        assert(space@ =~= seq![' ']);
        assert(dash@ =~= seq!['-']);
        assert(under@ =~= seq!['_']);
        assert(dot@ =~= seq!['.']);
    }
    let a = replace_all_vec(&stem, &dash, &space);
    let b = replace_all_vec(&a, &under, &space);
    let n = replace_all_vec(&b, &dot, &space);
    let toks = split_ws_vec(&n);
    let ghost all = views(toks@);
    assert(n@ == normalized_stem(stem@));
    assert(file_stem_of(path@) == Some(stem@));
    let mut i: usize = 0;
    assert(all.subrange(0, all.len() as int) =~= all);
    while i < toks.len()
        invariant
            i <= toks@.len(),
            all == views(toks@),
            all == split_ws(n@),
            n@ == normalized_stem(stem@),
            file_stem_of(path@) == Some(stem@),
            device_in_tokens(all) == device_in_tokens(all.subrange(i as int, all.len() as int)),
        decreases toks@.len() - i,
    {
        proof {
            let rest = all.subrange(i as int, all.len() as int);
            assert(rest[0] == toks@[i as int]@);
            assert(rest.drop_first() =~= all.subrange(i + 1, all.len() as int));
        }
        match device_in_token_exec(&toks[i]) {
            Some(d) => {
                proof {
                    let rest = all.subrange(i as int, all.len() as int);
                    assert(device_in_tokens(rest) == Some(d@));
                    assert(n@ == normalized_stem(stem@));
                }
                return Some(string_from_chars(&d));
            },
            None => {},
        }
        i += 1;
    }
    None
}

// ---------------------------------------------------------------------------
// Screenshots
// ---------------------------------------------------------------------------

pub const DEFAULT_MAX_SHOTS: usize = 500;
pub const DEFAULT_INTERVAL_MS: u64 = 5000;
pub const DEFAULT_FRAME_WIDTH: u32 = 0;

/// Which times of each video are captured.
#[derive(Debug, Clone, Copy, PartialEq, Eq, Structural)]
pub enum ScreenshotMode {
    CurrentTime,
    Interval,
    Markers,
    SegmentStartEnd,
}

impl ScreenshotMode {
    pub fn label(self) -> (r: &'static str)
        ensures
            r@ == (match self {
                ScreenshotMode::CurrentTime => "当前时间"@,
                ScreenshotMode::Interval => "固定间隔"@,
                ScreenshotMode::Markers => "标记点"@,
                ScreenshotMode::SegmentStartEnd => "片段起止"@,
            }),
    {
        match self {
            ScreenshotMode::CurrentTime => "当前时间",
            ScreenshotMode::Interval => "固定间隔",
            ScreenshotMode::Markers => "标记点",
            ScreenshotMode::SegmentStartEnd => "片段起止",
        }
    }

    pub fn all() -> (r: [ScreenshotMode; 4])
        ensures
            r@ == seq![ScreenshotMode::CurrentTime, ScreenshotMode::Interval, ScreenshotMode::Markers, ScreenshotMode::SegmentStartEnd],
    {
        let r = [ScreenshotMode::CurrentTime, ScreenshotMode::Interval, ScreenshotMode::Markers, ScreenshotMode::SegmentStartEnd];
        assert(r@ =~= seq![ScreenshotMode::CurrentTime, ScreenshotMode::Interval, ScreenshotMode::Markers, ScreenshotMode::SegmentStartEnd]);
        r
    }
}

/// Image format of the screenshots.
#[derive(Debug, Clone, Copy, PartialEq, Eq, Structural)]
pub enum ScreenshotFormat {
    Jpeg,
    Png,
}

impl ScreenshotFormat {
    pub fn extension(self) -> (r: &'static str)
        ensures
            r@ == (match self {
                ScreenshotFormat::Jpeg => "jpg"@,
                ScreenshotFormat::Png => "png"@,
            }),
    {
        match self {
            ScreenshotFormat::Jpeg => "jpg",
            ScreenshotFormat::Png => "png",
        }
    }
}

/// A characters kept in file names: ASCII letters and digits, `-`, `_` and `.`; anything
/// else becomes `_`.
pub open spec fn file_char(c: char) -> char {
    if is_alnum_ascii(c) || c == '-' || c == '_' || c == '.' {
        c
    } else {
        '_'
    }
}

/// A token made safe for a file name: trimmed, each other character replaced by `_`.
pub open spec fn sanitize_spec(s: Seq<char>) -> Seq<char> {
    let t = trim(s);
    Seq::new(t.len(), |i: int| file_char(t[i]))
}

fn sanitize_chars(s: &Vec<char>) -> (r: Vec<char>)
    ensures
        r@ == sanitize_spec(s@),
{
    let t = trim_vec(s);
    let mut out: Vec<char> = Vec::new();
    let mut i: usize = 0;
    while i < t.len()
        invariant
            i <= t@.len(),
            out@ == Seq::new(i as nat, |j: int| file_char(t@[j])),
        decreases t@.len() - i,
    {
        let c = t[i];
        out.push(if is_alnum_ascii_exec(c) || c == '-' || c == '_' || c == '.' { c } else { '_' });
        i += 1;
        assert(out@ =~= Seq::new(i as nat, |j: int| file_char(t@[j])));
    }
    out
}

pub fn sanitize_filename_token(input: &str) -> (r: String)
    ensures
        r@ == sanitize_spec(input@),
{
    string_from_chars(&sanitize_chars(&chars_of(input)))
}

/// A screenshot file name from a template: `{index}` (three digits), `{filename}`, `{time}`,
/// `{device}` and `{marker}` (each sanitised) and `{ext}` are filled in, in that order, and
/// the whole name is sanitised.
pub open spec fn render_filename_spec(template: Seq<char>, index: nat, filename: Seq<char>, time: Seq<char>, device: Seq<char>, marker: Seq<char>, ext: Seq<char>) -> Seq<char> {
    let a = replace_all(template, "{index}"@, zero_pad(decimal(index), 3));
    let b = replace_all(a, "{filename}"@, sanitize_spec(filename));
    let c = replace_all(b, "{time}"@, sanitize_spec(time));
    let d = replace_all(c, "{device}"@, sanitize_spec(device));
    let e = replace_all(d, "{marker}"@, sanitize_spec(marker));
    let f = replace_all(e, "{ext}"@, ext);
    sanitize_spec(f)
}

pub fn render_filename(template: &str, index: usize, filename: &str, time: &str, device: &str, marker: &str, ext: &str) -> (r: String)
    ensures
        r@ == render_filename_spec(template@, index as nat, filename@, time@, device@, marker@, ext@),
{
    proof {
        reveal_strlit("{index}");
        reveal_strlit("{filename}");
        reveal_strlit("{time}");
        reveal_strlit("{device}");
        reveal_strlit("{marker}");
        reveal_strlit("{ext}");
    }
    let t = chars_of(template);
    let mut idx: Vec<char> = Vec::new();
    push_decimal_padded(&mut idx, index as u64, 3);
    let a = replace_all_vec(&t, &chars_of("{index}"), &idx);
    let b = replace_all_vec(&a, &chars_of("{filename}"), &sanitize_chars(&chars_of(filename)));
    let c = replace_all_vec(&b, &chars_of("{time}"), &sanitize_chars(&chars_of(time)));
    let d = replace_all_vec(&c, &chars_of("{device}"), &sanitize_chars(&chars_of(device)));
    let e = replace_all_vec(&d, &chars_of("{marker}"), &sanitize_chars(&chars_of(marker)));
    let f = replace_all_vec(&e, &chars_of("{ext}"), &chars_of(ext));
    string_from_chars(&sanitize_chars(&f))
}

/// Whether a file exists at `p` (`Path::exists`). Nothing is stated of the answer: it
/// depends on the disk.
#[verifier::external_body]
fn path_exists(p: &str) -> (r: bool) {
    std::path::Path::new(p).exists()
}

/// `<stem>_<i>.<ext>`.
pub open spec fn numbered_name(stem: Seq<char>, i: nat, ext: Seq<char>) -> Seq<char> {
    stem + "_"@ + decimal(i) + "."@ + ext
}

pub open spec fn stem_or_shot(name: Seq<char>) -> Seq<char> {
    match file_stem_of(name) {
        Some(s) => s,
        None => "shot"@,
    }
}

pub open spec fn ext_or_jpg(name: Seq<char>) -> Seq<char> {
    match extension_of(name) {
        Some(e) => e,
        None => "jpg"@,
    }
}

/// The least index of `taken` that is `false`, if any.
pub open spec fn least_free(taken: Seq<bool>) -> Option<int> {
    if exists|i: int| 0 <= i < taken.len() && !taken[i] {
        Some(choose|i: int| 0 <= i < taken.len() && !taken[i] && forall|j: int| 0 <= j < i ==> #[trigger] taken[j])
    } else {
        None
    }
}

proof fn lemma_least_free_is(taken: Seq<bool>, i: int)
    requires
        0 <= i < taken.len(),
        !taken[i],
        forall|j: int| 0 <= j < i ==> #[trigger] taken[j],
    ensures
        least_free(taken) == Some(i),
{
    let c = choose|c: int| 0 <= c < taken.len() && !taken[c] && forall|j: int| 0 <= j < c ==> #[trigger] taken[j];
    assert(0 <= c < taken.len() && !taken[c] && forall|j: int| 0 <= j < c ==> #[trigger] taken[j]);
    if c < i {
        assert(taken[c]);
    }
    if i < c {
        assert(taken[i]);
    }
}

/// The first position whose answer is "taken: no".
pub fn first_free(taken: &Vec<bool>) -> (r: Option<usize>)
    ensures
        (match r {
            Some(i) => Some(i as int),
            None => None,
        }) == least_free(taken@),
{
    let mut i: usize = 0;
    while i < taken.len()
        invariant
            i <= taken@.len(),
            forall|j: int| 0 <= j < i ==> #[trigger] taken@[j],
        decreases taken@.len() - i,
    {
        if !taken[i] {
            proof {
                lemma_least_free_is(taken@, i as int);
            }
            return Some(i);
        }
        i += 1;
    }
    proof {
        assert forall|k: int| 0 <= k < taken@.len() implies taken@[k] by {
            assert(taken@[k]);
        }
    }
    None
}

/// The path that [`unique_output_path`] picks when `taken` answers, in order, whether
/// `base_name` and then `<stem>_2.<ext>` to `<stem>_9999.<ext>` exist in `dir`: the first
/// that does not, else `base_name`.
pub open spec fn unique_choice(dir: Seq<char>, base_name: Seq<char>, taken: Seq<bool>) -> Seq<char> {
    match least_free(taken) {
        Some(k) => if k == 0 {
            join_path(dir, base_name)
        } else {
            join_path(dir, numbered_name(stem_or_shot(base_name), (k + 1) as nat, ext_or_jpg(base_name)))
        },
        None => join_path(dir, base_name),
    }
}

/// A path in `dir` for `base_name` that does not exist yet: the name itself when free,
/// else the first free `<stem>_<i>.<ext>` for `i` from 2 to 9999, else the name itself
/// again. Which paths exist is read from the disk, one by one as needed.
pub fn unique_output_path(dir: &String, base_name: &str) -> (r: String)
    ensures
        exists|taken: Seq<bool>| taken.len() == 9999 && r@ == #[trigger] unique_choice(dir@, base_name@, taken),
{
    let candidate = crate::server::config::join_path_exec(dir, base_name);
    if !path_exists(candidate.as_str()) {
        proof {
            let taken = Seq::new(9999, |k: int| k < 0);
            lemma_least_free_is(taken, 0);
            assert(candidate@ == unique_choice(dir@, base_name@, taken));
        }
        return candidate;
    }
    let stem = match file_stem(base_name) {
        Some(s) => chars_of_string(&s),
        None => chars_of("shot"),
    };
    let ext = match extension(base_name) {
        Some(e) => chars_of_string(&e),
        None => chars_of("jpg"),
    };
    let mut i: u64 = 2;
    while i <= 9999
        invariant
            2 <= i <= 10000,
            stem@ == (match file_stem_of(base_name@) {
                Some(s) => s,
                None => "shot"@,
            }),
            ext@ == (match extension_of(base_name@) {
                Some(e) => e,
                None => "jpg"@,
            }),
        decreases 10000 - i,
    {
        let mut name = stem.clone();
        push_str(&mut name, "_");
        push_decimal(&mut name, i);
        push_str(&mut name, ".");
        push_all(&mut name, &ext);
        let ns = string_from_chars(&name);
        let path = crate::server::config::join_path_exec(dir, ns.as_str());
        if !path_exists(path.as_str()) {
            proof {
                let idx = (i - 1) as int;
                let taken = Seq::new(9999, |k: int| k < idx);
                lemma_least_free_is(taken, idx);
                assert(name@ == numbered_name(stem@, i as nat, ext@));
                assert(path@ == unique_choice(dir@, base_name@, taken));
            }
            return path;
        }
        i += 1;
    }
    let r = crate::server::config::join_path_exec(dir, base_name);
    proof {
        let taken = Seq::new(9999, |k: int| true);
        assert(!(exists|j: int| 0 <= j < taken.len() && !taken[j]));
        assert(r@ == unique_choice(dir@, base_name@, taken));
    }
    r
}

/// A time marker on a video.
#[derive(Debug)]
pub struct VideoMarker {
    pub id: i64,
    pub video_id: i64,
    pub time_ms: u64,
    pub kind: MarkerKind,
    pub text: String,
    pub severity: u8,
    pub created_at: i64,
}

/// A noted segment of a video.
#[derive(Debug)]
pub struct VideoSegment {
    pub id: i64,
    pub video_id: i64,
    pub start_ms: u64,
    pub end_ms: u64,
    pub text: String,
    pub status: ReviewStatus,
    pub created_at: i64,
}

/// Screenshots to take of several videos.
#[derive(Debug)]
pub struct BatchScreenshotRequest {
    pub videos: Vec<VideoItem>,
    pub mode: ScreenshotMode,
    pub current_time_ms: u64,
    pub interval_ms: u64,
    pub max_shots: usize,
    pub frame_width: u32,
    pub output_dir: String,
    pub format: ScreenshotFormat,
    pub naming_template: String,
    pub write_csv_manifest: bool,
    pub write_json_manifest: bool,
    pub write_contact_sheet: bool,
    /// Markers of each video, by video id.
    pub markers_by_video: Vec<(i64, Vec<VideoMarker>)>,
    /// Segments of each video, by video id.
    pub segments_by_video: Vec<(i64, Vec<VideoSegment>)>,
}

impl BatchScreenshotRequest {
    /// A request with the defaults: time zero, every 5 s, at most 500 shots, full-size JPEG
    /// frames named `{index}_{filename}_{time}_{device}_{marker}.{ext}`, with a CSV manifest.
    pub fn new(videos: Vec<VideoItem>, mode: ScreenshotMode, output_dir: String) -> (r: Self)
        ensures
            r.videos@ == videos@,
            r.mode == mode,
            r.current_time_ms == 0,
            r.interval_ms == DEFAULT_INTERVAL_MS,
            r.max_shots == DEFAULT_MAX_SHOTS,
            r.frame_width == DEFAULT_FRAME_WIDTH,
            r.output_dir == output_dir,
            r.format == ScreenshotFormat::Jpeg,
            r.naming_template@ == "{index}_{filename}_{time}_{device}_{marker}.{ext}"@,
            r.write_csv_manifest && !r.write_json_manifest && !r.write_contact_sheet,
            r.markers_by_video@.len() == 0 && r.segments_by_video@.len() == 0,
    {
        BatchScreenshotRequest {
            videos,
            mode,
            current_time_ms: 0,
            interval_ms: DEFAULT_INTERVAL_MS,
            max_shots: DEFAULT_MAX_SHOTS,
            frame_width: DEFAULT_FRAME_WIDTH,
            output_dir,
            format: ScreenshotFormat::Jpeg,
            naming_template: string_of("{index}_{filename}_{time}_{device}_{marker}.{ext}"),
            write_csv_manifest: true,
            write_json_manifest: false,
            write_contact_sheet: false,
            markers_by_video: Vec::new(),
            segments_by_video: Vec::new(),
        }
    }
}

/// One planned screenshot: of which video, at which global time, with which marker text.
pub type PlannedShot = (i64, u64, Option<String>);

pub open spec fn min_u64(a: u64, b: u64) -> u64 {
    if a < b { a } else { b }
}

/// Interval times `0, step, 2·step, …` before `duration`, at most `max` of them.
pub open spec fn interval_times(duration: u64, step: nat, max: nat) -> Seq<u64> {
    let n = if step == 0 { 0 } else { ((duration + step - 1) / (step as int)) as nat };
    let k = if n < max { n } else { max };
    Seq::new(k, |i: int| (i * step) as u64)
}

/// The first entry of a by-id list for `id`, if any.
pub open spec fn entries_for<T>(by: Seq<(i64, Vec<T>)>, id: i64) -> Seq<T>
    decreases by.len(),
{
    if by.len() == 0 {
        Seq::empty()
    } else if by[0].0 == id {
        by[0].1@
    } else {
        entries_for(by.drop_first(), id)
    }
}

/// Marker shots: each marker's time (at most the duration) and text.
pub open spec fn marker_shots(v: VideoItem, ms: Seq<VideoMarker>) -> Seq<(i64, u64, Option<Seq<char>>)> {
    Seq::new(ms.len(), |i: int| (v.id, min_u64(ms[i].time_ms, v.duration_ms), Some(ms[i].text@)))
}

/// Segment shots: start and end of each segment (at most the duration), as
/// `start:<text>` and `end:<text>`.
pub open spec fn segment_shots(v: VideoItem, ss: Seq<VideoSegment>) -> Seq<(i64, u64, Option<Seq<char>>)> {
    Seq::new(2 * ss.len(), |i: int| if i % 2 == 0 {
        (v.id, min_u64(ss[i / 2].start_ms, v.duration_ms), Some("start:"@ + ss[i / 2].text@))
    } else {
        (v.id, min_u64(ss[i / 2].end_ms, v.duration_ms), Some("end:"@ + ss[i / 2].text@))
    })
}

pub open spec fn shot_views(s: Seq<PlannedShot>) -> Seq<(i64, u64, Option<Seq<char>>)> {
    Seq::new(s.len(), |i: int| (s[i].0, s[i].1, match s[i].2 {
        Some(t) => Some(t@),
        None => None,
    }))
}

/// The shots that one video contributes before the overall limit is applied.
pub open spec fn video_shots(r: BatchScreenshotRequest, v: VideoItem, max: nat) -> Seq<(i64, u64, Option<Seq<char>>)> {
    match r.mode {
        ScreenshotMode::CurrentTime => seq![(v.id, r.current_time_ms, None)],
        ScreenshotMode::Interval => {
            let step: nat = if r.interval_ms < 100 { 100 } else { r.interval_ms as nat };
            let ts = interval_times(v.duration_ms, step, max);
            Seq::new(ts.len(), |i: int| (v.id, ts[i], None::<Seq<char>>))
        },
        ScreenshotMode::Markers => marker_shots(v, entries_for(r.markers_by_video@, v.id)),
        ScreenshotMode::SegmentStartEnd => segment_shots(v, entries_for(r.segments_by_video@, v.id)),
    }
}

/// The shots of the first `k` videos, in order, never more than `max` in all.
pub open spec fn plan_prefix(r: BatchScreenshotRequest, k: nat, max: nat) -> Seq<(i64, u64, Option<Seq<char>>)>
    decreases k,
{
    if k == 0 {
        Seq::empty()
    } else {
        let before = plan_prefix(r, (k - 1) as nat, max);
        if before.len() >= max {
            before
        } else {
            let mine = video_shots(r, r.videos@[k - 1], max);
            let room = (max - before.len()) as nat;
            before + (if mine.len() > room { mine.subrange(0, room as int) } else { mine })
        }
    }
}

/// All planned shots of a request: per video in order, until `max_shots` (at least one).
pub open spec fn plan_spec(r: BatchScreenshotRequest) -> Seq<(i64, u64, Option<Seq<char>>)> {
    let max: nat = if r.max_shots < 1 { 1 } else { r.max_shots as nat };
    plan_prefix(r, r.videos@.len(), max)
}

fn entries_index<T>(by: &Vec<(i64, Vec<T>)>, id: i64) -> (r: Option<usize>)
    ensures
        match r {
            Some(i) => i < by@.len() && entries_for(by@, id) == by@[i as int].1@,
            None => entries_for(by@, id) == Seq::<T>::empty(),
        },
{
    let mut i: usize = 0;
    assert(by@.subrange(0, by@.len() as int) =~= by@);
    while i < by.len()
        invariant
            i <= by@.len(),
            entries_for(by@, id) == entries_for(by@.subrange(i as int, by@.len() as int), id),
        decreases by@.len() - i,
    {
        proof {
            let rest = by@.subrange(i as int, by@.len() as int);
            assert(rest[0] == by@[i as int]);
            assert(rest.drop_first() =~= by@.subrange(i + 1, by@.len() as int));
        }
        if by[i].0 == id {
            return Some(i);
        }
        i += 1;
    }
    None
}

proof fn lemma_ceil_div(d: int, step: int, j: int)
    requires
        step > 0,
        j >= 1,
        (j - 1) * step < d,
        d <= j * step,
    ensures
        (d + step - 1) / step == j,
{
    assert((d + step - 1) / step == j) by (nonlinear_arith)
        requires step > 0, j >= 1, (j - 1) * step < d, d <= j * step;
}

fn interval_shots(video: &VideoItem, step: u64, max: usize) -> (r: Vec<PlannedShot>)
    requires
        step >= 1,
    ensures
        shot_views(r@) == ({
            let ts = interval_times(video.duration_ms, step as nat, max as nat);
            Seq::new(ts.len(), |i: int| (video.id, ts[i], None::<Seq<char>>))
        }),
{
    let mut points: Vec<PlannedShot> = Vec::new();
    let mut t: u64 = 0;
    let mut j: usize = 0;
    let d = video.duration_ms;
    while t < d && points.len() < max
        invariant
            step >= 1,
            d == video.duration_ms,
            points@.len() == j,
            j <= max,
            t == (if j * step <= u64::MAX { j * step } else { u64::MAX as int }),
            j >= 1 ==> (j - 1) * step < d,
            forall|i: int| 0 <= i < j ==> #[trigger] points@[i] == (video.id, (i * step) as u64, None::<String>),
        decreases max - j,
    {
        points.push((video.id, t, None));
        proof {
            assert(t == j * step);
        }
        j = j + 1;
        t = t.saturating_add(step);
        proof {
            assert(j * step == (j - 1) * step + step) by (nonlinear_arith);
        }
    }
    proof {
        let n: int = ((d + step - 1) / (step as int)) as int;
        if j >= max && t < d {
            // every planned time lies before the end
            assert((j - 1) * step < d || j == 0);
            if j >= 1 {
                assert(j * step <= (d + step - 1) / (step as int) * step || true);
            }
            assert(n >= j) by (nonlinear_arith)
                requires step >= 1, t < d, t == (if j * step <= u64::MAX { j * step } else { u64::MAX as int }), n == (d + step - 1) / (step as int), d <= u64::MAX;
        } else {
            assert(t >= d);
            if j == 0 {
                assert(d == 0);
                assert(n == 0) by (nonlinear_arith)
                    requires n == (d + step - 1) / (step as int), d == 0, step >= 1;
            } else {
                assert(j * step >= d);
                lemma_ceil_div(d as int, step as int, j as int);
            }
        }
        let ts = interval_times(d, step as nat, max as nat);
        assert(ts.len() == j);
        assert(shot_views(points@) =~= Seq::new(ts.len(), |i: int| (video.id, ts[i], None::<Seq<char>>)));
    }
    points
}

fn video_shots_exec(request: &BatchScreenshotRequest, video: &VideoItem, max: usize) -> (r: Vec<PlannedShot>)
    ensures
        shot_views(r@) == video_shots(*request, *video, max as nat),
{
    match request.mode {
        ScreenshotMode::CurrentTime => {
            let v: Vec<PlannedShot> = vec![(video.id, request.current_time_ms, None)];
            assert(shot_views(v@) =~= seq![(video.id, request.current_time_ms, None::<Seq<char>>)]);
            v
        },
        ScreenshotMode::Interval => {
            let step: u64 = if request.interval_ms < 100 { 100 } else { request.interval_ms };
            interval_shots(video, step, max)
        },
        ScreenshotMode::Markers => {
            let mut out: Vec<PlannedShot> = Vec::new();
            let ghost ms = entries_for(request.markers_by_video@, video.id);
            match entries_index(&request.markers_by_video, video.id) {
                Some(k) => {
                    let list = &request.markers_by_video[k].1;
                    let mut i: usize = 0;
                    while i < list.len()
                        invariant
                            i <= list@.len(),
                            list@ == ms,
                            shot_views(out@) == marker_shots(*video, ms.subrange(0, i as int)),
                        decreases list@.len() - i,
                    {
                        let m = &list[i];
                        let t = if m.time_ms < video.duration_ms { m.time_ms } else { video.duration_ms };
                        let ghost before = out@;
                        let txt = m.text.clone();
                        out.push((video.id, t, Some(txt)));
                        proof {
                            assert(out@ == before.push((video.id, t, Some(txt))));
                            assert(shot_views(out@) =~= shot_views(before).push((video.id, t, Some(txt@))));
                            assert(marker_shots(*video, ms.subrange(0, i + 1)) =~= marker_shots(*video, ms.subrange(0, i as int)).push(
                                (video.id, min_u64(ms[i as int].time_ms, video.duration_ms), Some(ms[i as int].text@))));
                        }
                        i += 1;
                    }
                    assert(ms.subrange(0, i as int) =~= ms);
                },
                None => {
                    assert(shot_views(out@) =~= marker_shots(*video, ms));
                },
            }
            out
        },
        ScreenshotMode::SegmentStartEnd => {
            let mut out: Vec<PlannedShot> = Vec::new();
            let ghost ss = entries_for(request.segments_by_video@, video.id);
            match entries_index(&request.segments_by_video, video.id) {
                Some(k) => {
                    let list = &request.segments_by_video[k].1;
                    let mut i: usize = 0;
                    while i < list.len()
                        invariant
                            i <= list@.len(),
                            list@ == ss,
                            shot_views(out@) == segment_shots(*video, ss.subrange(0, i as int)),
                        decreases list@.len() - i,
                    {
                        let sg = &list[i];
                        let a = if sg.start_ms < video.duration_ms { sg.start_ms } else { video.duration_ms };
                        let b = if sg.end_ms < video.duration_ms { sg.end_ms } else { video.duration_ms };
                        let mut st = chars_of("start:");
                        push_all(&mut st, &chars_of_string(&sg.text));
                        let mut en = chars_of("end:");
                        push_all(&mut en, &chars_of_string(&sg.text));
                        let ghost before = out@;
                        let s1 = string_from_chars(&st);
                        let s2 = string_from_chars(&en);
                        let ghost v1 = s1@;
                        let ghost v2 = s2@;
                        out.push((video.id, a, Some(s1)));
                        out.push((video.id, b, Some(s2)));
                        proof {
                            assert(shot_views(out@) =~= shot_views(before).push((video.id, a, Some(v1))).push((video.id, b, Some(v2))));
                            assert(segment_shots(*video, ss.subrange(0, i + 1)) =~= segment_shots(*video, ss.subrange(0, i as int)).push(
                                (video.id, a, Some(v1))).push((video.id, b, Some(v2))));
                        }
                        i += 1;
                    }
                    assert(ss.subrange(0, i as int) =~= ss);
                },
                None => {
                    assert(shot_views(out@) =~= segment_shots(*video, ss));
                },
            }
            out
        },
    }
}

/// The screenshots a request takes: for each video in order, the times its mode gives, until
/// `max_shots` (at least one) are planned.
pub fn plan_shots(request: &BatchScreenshotRequest) -> (r: Vec<PlannedShot>)
    ensures
        shot_views(r@) == plan_spec(*request),
{
    let max: usize = if request.max_shots < 1 { 1 } else { request.max_shots };
    let mut shots: Vec<PlannedShot> = Vec::new();
    let mut k: usize = 0;
    while k < request.videos.len()
        invariant
            k <= request.videos@.len(),
            max == (if request.max_shots < 1 { 1 } else { request.max_shots as int }),
            shot_views(shots@) == plan_prefix(*request, k as nat, max as nat),
            shots@.len() <= max,
        decreases request.videos@.len() - k,
    {
        if shots.len() < max {
            let mine = video_shots_exec(request, &request.videos[k], max);
            let room = max - shots.len();
            let n = if mine.len() > room { room } else { mine.len() };
            let ghost before = shot_views(shots@);
            let mut i: usize = 0;
            while i < n
                invariant
                    i <= n,
                    n <= mine@.len(),
                    shot_views(shots@) == before + shot_views(mine@).subrange(0, i as int),
                decreases n - i,
            {
                let (a, b, c) = &mine[i];
                let c2 = crate::server::models::clone_opt_string(c);
                let ghost prev = shots@;
                shots.push((*a, *b, c2));
                proof {
                    assert(shot_views(shots@) =~= shot_views(prev).push(shot_views(mine@)[i as int]));
                    assert(shot_views(mine@).subrange(0, i + 1) =~= shot_views(mine@).subrange(0, i as int).push(shot_views(mine@)[i as int]));
                }
                i += 1;
            }
            proof {
                let mv = video_shots(*request, request.videos@[k as int], max as nat);
                assert(shot_views(mine@) == mv);
                if mv.len() > room {
                    assert(shot_views(mine@).subrange(0, n as int) =~= mv.subrange(0, room as int));
                } else {
                    assert(shot_views(mine@).subrange(0, n as int) =~= mv);
                }
            }
        }
        k += 1;
    }
    shots
}

// ---------------------------------------------------------------------------
// Frame cache, batch results, tag suggestions
// ---------------------------------------------------------------------------

/// What `cache_key_hash` gives for these arguments.
pub uninterp spec fn cache_key_of(video_path: Seq<char>, mtime: u64, time_ms: u64, width: u32) -> u64;

/// A hash of the frame-cache key of one frame: std's `DefaultHasher::new`, fed the path
/// text, the modification time, the time and the width, then `finish`. std documents that
/// every hasher made by `new` is the same one, so the result depends on the arguments
/// alone (`cache_key_of`); which value it is, std leaves unspecified (the algorithm may
/// change between Rust releases), and nothing more is stated of it.
#[verifier::external_body]
pub fn cache_key_hash(video_path: &str, mtime: u64, time_ms: u64, width: u32) -> (r: u64)
    ensures
        r == cache_key_of(video_path@, mtime, time_ms, width),
{
    let mut hasher = std::collections::hash_map::DefaultHasher::new();
    std::borrow::Cow::<str>::Borrowed(video_path).hash(&mut hasher);
    mtime.hash(&mut hasher);
    time_ms.hash(&mut hasher);
    width.hash(&mut hasher);
    hasher.finish()
}

/// `<hash>_<mtime>_<time>_<width>.jpg`: the cached frame's file name.
pub fn frame_file_name(path_hash: u64, mtime: u64, time_ms: u64, width: u32) -> (r: String)
    ensures
        r@ == decimal(path_hash as nat) + "_"@ + decimal(mtime as nat) + "_"@ + decimal(time_ms as nat)
            + "_"@ + decimal(width as nat) + ".jpg"@,
{
    let mut out: Vec<char> = Vec::new();
    push_decimal(&mut out, path_hash);
    push_str(&mut out, "_");
    push_decimal(&mut out, mtime);
    push_str(&mut out, "_");
    push_decimal(&mut out, time_ms);
    push_str(&mut out, "_");
    push_decimal(&mut out, width as u64);
    push_str(&mut out, ".jpg");
    string_from_chars(&out)
}

/// The cache file name of the frame of `video_path` (last modified at `mtime`) at
/// `time_ms`, `width` pixels wide: the key's hash, then the key's parts.
pub fn cached_frame_file_name(video_path: &str, mtime: u64, time_ms: u64, width: u32) -> (r: String)
    ensures
        r@ == decimal(cache_key_of(video_path@, mtime, time_ms, width) as nat) + "_"@ + decimal(mtime as nat)
            + "_"@ + decimal(time_ms as nat) + "_"@ + decimal(width as nat) + ".jpg"@,
{
    let path_hash = cache_key_hash(video_path, mtime, time_ms, width);
    frame_file_name(path_hash, mtime, time_ms, width)
}

/// Size of the frame cache.
#[derive(Debug, Clone, Copy, PartialEq, Eq, Structural)]
pub struct FrameCacheStats {
    pub file_count: usize,
    pub total_bytes: u64,
    pub pending_count: usize,
}

/// Options of a folder import.
#[derive(Debug, Clone, Copy, PartialEq, Eq, Structural)]
pub struct ImportFolderOptions {
    pub generate_thumbnails: bool,
}

impl ImportFolderOptions {
    /// No thumbnails at import.
    pub fn fast() -> (r: Self)
        ensures
            !r.generate_thumbnails,
    {
        ImportFolderOptions { generate_thumbnails: false }
    }
}

/// The outcome of an operation on several videos.
#[derive(Debug)]
pub struct BatchOperationResult {
    pub requested: usize,
    pub applied: usize,
    pub failed: usize,
    pub failures: Vec<String>,
}

impl BatchOperationResult {
    /// All `requested` applied.
    pub fn success(requested: usize) -> (r: Self)
        ensures
            r.requested == requested && r.applied == requested && r.failed == 0 && r.failures@.len() == 0,
    {
        BatchOperationResult { requested, applied: requested, failed: 0, failures: Vec::new() }
    }

    /// None applied, for one reason.
    pub fn failure(requested: usize, error: String) -> (r: Self)
        ensures
            r.requested == requested && r.applied == 0 && r.failed == requested && r.failures@ == seq![error],
    {
        let mut failures: Vec<String> = Vec::new();
        failures.push(error);
        BatchOperationResult { requested, applied: 0, failed: requested, failures }
    }

    pub fn is_success(&self) -> (r: bool)
        ensures
            r == (self.failed == 0),
    {
        self.failed == 0
    }
}

/// The tag suggestions of the keyword table, in table order, each at most once.
pub open spec fn keyword_table() -> Seq<(Seq<char>, Seq<char>)> {
    seq![
        ("黑场"@, "黑场"@),
        ("black"@, "黑场"@),
        ("字幕"@, "字幕问题"@),
        ("subtitle"@, "字幕问题"@),
        ("音画"@, "音画同步"@),
        ("sync"@, "音画同步"@),
        ("抖动"@, "画面抖动"@),
        ("shake"@, "画面抖动"@),
    ]
}

/// The tags suggested by the first `k` keywords for lower-cased text `l`.
pub open spec fn tags_prefix(l: Seq<char>, k: nat) -> Seq<Seq<char>>
    decreases k,
{
    if k == 0 {
        Seq::empty()
    } else {
        let before = tags_prefix(l, (k - 1) as nat);
        let (needle, tag) = keyword_table()[k - 1];
        if contains(l, lower(needle)) && !before.contains(tag) {
            before.push(tag)
        } else {
            before
        }
    }
}

/// Rule-based review suggestions for videos.
pub struct VideoAnalysisService;

impl VideoAnalysisService {
/// Tags that a remark suggests by its keywords.
pub fn suggest_tags_from_text(text: &str) -> (r: Vec<String>)
    ensures
        string_views(r@) == tags_prefix(lower(text@), 8),
{
    let l = lower_vec(&chars_of(text));
    let needles: [&str; 8] = ["黑场", "black", "字幕", "subtitle", "音画", "sync", "抖动", "shake"];
    let tags: [&str; 8] = ["黑场", "黑场", "字幕问题", "字幕问题", "音画同步", "音画同步", "画面抖动", "画面抖动"];
    let mut out: Vec<String> = Vec::new();
    let mut k: usize = 0;
    while k < 8
        invariant
            k <= 8,
            l@ == lower(text@),
            forall|i: int| 0 <= i < 8 ==> (#[trigger] needles@[i])@ == keyword_table()[i].0 && tags@[i]@ == keyword_table()[i].1,
            string_views(out@) == tags_prefix(l@, k as nat),
        decreases 8 - k,
    {
        let needle = lower_vec(&chars_of(needles[k]));
        let tag = tags[k];
        let mut seen = false;
        let mut j: usize = 0;
        while j < out.len()
            invariant
                j <= out@.len(),
                !seen ==> forall|q: int| 0 <= q < j ==> string_views(out@)[q] != tag@,
                seen ==> string_views(out@).contains(tag@),
            decreases out@.len() - j,
        {
            if eq_vec(&chars_of_string(&out[j]), &chars_of(tag)) {
                assert(string_views(out@)[j as int] == tag@);
                seen = true;
            }
            j += 1;
        }
        if contains_exec(&l, &needle) && !seen {
            let ghost before = string_views(out@);
            out.push(string_of(tag));
            assert(string_views(out@) =~= before.push(tag@));
        }
        k += 1;
    }
    out
}
}


// ---------------------------------------------------------------------------
// Screenshot results
// ---------------------------------------------------------------------------

/// One line of a screenshot manifest.
#[derive(Debug)]
pub struct ScreenshotManifestEntry {
    pub index: usize,
    pub video_id: i64,
    pub video_path: String,
    pub time_ms: u64,
    pub time_label: String,
    pub output_path: String,
    pub marker_text: Option<String>,
    pub success: bool,
    pub error: Option<String>,
}

/// What a batch of screenshots produced.
#[derive(Debug)]
pub struct BatchScreenshotResult {
    pub requested: usize,
    pub succeeded: usize,
    pub failed: usize,
    pub output_files: Vec<String>,
    pub manifest_entries: Vec<ScreenshotManifestEntry>,
    pub csv_manifest: Option<String>,
    pub json_manifest: Option<String>,
    pub contact_sheets: Vec<String>,
}

/// The number of successful entries.
pub open spec fn successes(e: Seq<ScreenshotManifestEntry>) -> nat
    decreases e.len(),
{
    if e.len() == 0 {
        0
    } else {
        successes(e.drop_last()) + if e.last().success { 1nat } else { 0nat }
    }
}

/// The output paths of the successful entries, in order.
pub open spec fn success_outputs(e: Seq<ScreenshotManifestEntry>) -> Seq<Seq<char>>
    decreases e.len(),
{
    if e.len() == 0 {
        Seq::empty()
    } else {
        let rest = success_outputs(e.drop_last());
        if e.last().success { rest.push(e.last().output_path@) } else { rest }
    }
}

proof fn lemma_successes_bounded(e: Seq<ScreenshotManifestEntry>)
    ensures
        successes(e) <= e.len(),
    decreases e.len(),
{
    if e.len() > 0 {
        lemma_successes_bounded(e.drop_last());
    }
}

/// The result of taking `requested` planned shots whose outcomes are `entries`: the
/// successes, the failures, the files written, and the entries themselves, with no
/// manifest or contact sheet written yet.
pub fn tally_shots(requested: usize, entries: Vec<ScreenshotManifestEntry>) -> (r: BatchScreenshotResult)
    ensures
        r.requested == requested,
        r.succeeded == successes(entries@),
        r.failed == entries@.len() - successes(entries@),
        r.output_files@.map_values(|p: String| p@) == success_outputs(entries@),
        r.manifest_entries@ == entries@,
        r.csv_manifest is None && r.json_manifest is None,
        r.contact_sheets@.len() == 0,
{
    let mut succeeded: usize = 0;
    let mut failed: usize = 0;
    let mut files: Vec<String> = Vec::new();
    let mut i: usize = 0;
    while i < entries.len()
        invariant
            i <= entries@.len(),
            succeeded == successes(entries@.subrange(0, i as int)),
            failed == i - successes(entries@.subrange(0, i as int)),
            files@.map_values(|p: String| p@) == success_outputs(entries@.subrange(0, i as int)),
        decreases entries@.len() - i,
    {
        proof {
            assert(entries@.subrange(0, i + 1).drop_last() =~= entries@.subrange(0, i as int));
            lemma_successes_bounded(entries@.subrange(0, i as int));
        }
        if entries[i].success {
            let ghost before = files@;
            files.push(entries[i].output_path.clone());
            proof {
                assert(files@.map_values(|p: String| p@) =~= before.map_values(|p: String| p@).push(entries@[i as int].output_path@));
            }
            succeeded += 1;
        } else {
            failed += 1;
        }
        i += 1;
    }
    proof {
        assert(entries@.subrange(0, entries@.len() as int) =~= entries@);
    }
    BatchScreenshotResult {
        requested,
        succeeded,
        failed,
        output_files: files,
        manifest_entries: entries,
        csv_manifest: None,
        json_manifest: None,
        contact_sheets: Vec::new(),
    }
}

/// The caption of a screenshot on the index sheet: its time, then ` · ` and its marker
/// when it has one.
pub open spec fn sheet_label(e: ScreenshotManifestEntry) -> Seq<char> {
    match e.marker_text {
        Some(m) => e.time_label@ + " · "@ + m@,
        None => e.time_label@,
    }
}

/// The pictures of the index sheet: each successful screenshot with its caption.
pub open spec fn sheet_items(e: Seq<ScreenshotManifestEntry>) -> Seq<(Seq<char>, Seq<char>)>
    decreases e.len(),
{
    if e.len() == 0 {
        Seq::empty()
    } else {
        let rest = sheet_items(e.drop_last());
        if e.last().success { rest.push((e.last().output_path@, sheet_label(e.last()))) } else { rest }
    }
}

pub fn index_sheet_items(entries: &Vec<ScreenshotManifestEntry>) -> (r: Vec<(String, String)>)
    ensures
        r@.map_values(|p: (String, String)| (p.0@, p.1@)) == sheet_items(entries@),
{
    let mut out: Vec<(String, String)> = Vec::new();
    let mut i: usize = 0;
    while i < entries.len()
        invariant
            i <= entries@.len(),
            out@.map_values(|p: (String, String)| (p.0@, p.1@)) == sheet_items(entries@.subrange(0, i as int)),
        decreases entries@.len() - i,
    {
        proof {
            assert(entries@.subrange(0, i + 1).drop_last() =~= entries@.subrange(0, i as int));
        }
        if entries[i].success {
            let label = match &entries[i].marker_text {
                Some(m) => {
                    let mut v = chars_of_string(&entries[i].time_label);
                    push_str(&mut v, " · ");
                    push_all(&mut v, &chars_of_string(m));
                    string_from_chars(&v)
                },
                None => entries[i].time_label.clone(),
            };
            let ghost before = out@;
            out.push((entries[i].output_path.clone(), label));
            proof {
                assert(out@.map_values(|p: (String, String)| (p.0@, p.1@)) =~= before.map_values(|p: (String, String)| (p.0@, p.1@)).push(
                    (entries@[i as int].output_path@, sheet_label(entries@[i as int]))));
            }
        }
        i += 1;
    }
    proof {
        assert(entries@.subrange(0, entries@.len() as int) =~= entries@);
    }
    out
}

// ---------------------------------------------------------------------------
// Folder import
// ---------------------------------------------------------------------------

/// A file left out of an import, and why.
#[derive(Debug)]
pub struct ImportSkip {
    pub path: String,
    pub reason: String,
}

/// What an import made: the batch, how many videos it holds, and what was left out.
#[derive(Debug)]
pub struct ImportFolderResult {
    pub batch_id: i64,
    pub imported: usize,
    pub skipped: Vec<ImportSkip>,
}

/// The name of an imported batch: the one given, else the folder's name, else `未命名批次`.
pub open spec fn import_batch_name_spec(given: Option<Seq<char>>, folder: Seq<char>) -> Seq<char> {
    match given {
        Some(n) => n,
        None => match file_name_of(folder) {
            Some(f) => f,
            None => "未命名批次"@,
        },
    }
}

pub fn import_batch_name(given: Option<&str>, folder: &str) -> (r: String)
    ensures
        r@ == import_batch_name_spec(match given {
            Some(n) => Some(n@),
            None => None,
        }, folder@),
{
    match given {
        Some(n) => string_of(n),
        None => match file_name(folder) {
            Some(f) => f,
            None => string_of("未命名批次"),
        },
    }
}

/// `<path> (<reason>)` for a skipped file.
pub open spec fn skip_text(s: ImportSkip) -> Seq<char> {
    s.path@ + " ("@ + s.reason@ + ")"@
}

/// The first `n` skipped files, each as `skip_text`, joined by `；`.
pub open spec fn skip_sample(s: Seq<ImportSkip>) -> Seq<char>
    decreases s.len(),
{
    if s.len() == 0 {
        Seq::empty()
    } else if s.len() == 1 {
        skip_text(s[0])
    } else {
        skip_sample(s.drop_last()) + "；"@ + skip_text(s.last())
    }
}

/// Why an import made nothing: when nothing was skipped, that no metadata could be read
/// (ffprobe may be missing); else how many files were skipped, with the first three.
pub open spec fn import_failure_spec(skipped: Seq<ImportSkip>) -> Seq<char> {
    if skipped.len() == 0 {
        "未能读取任何视频元数据，请确认已安装 ffprobe"@
    } else {
        "未能导入任何视频（跳过 "@ + decimal(skipped.len()) + " 个）。示例："@
            + skip_sample(skipped.subrange(0, if skipped.len() < 3 { skipped.len() as int } else { 3 }))
    }
}

pub fn import_failure_message(skipped: &Vec<ImportSkip>) -> (r: String)
    ensures
        r@ == import_failure_spec(skipped@),
{
    if skipped.len() == 0 {
        return string_of("未能读取任何视频元数据，请确认已安装 ffprobe");
    }
    let mut out: Vec<char> = Vec::new();
    push_str(&mut out, "未能导入任何视频（跳过 ");
    push_decimal(&mut out, skipped.len() as u64);
    push_str(&mut out, " 个）。示例：");
    let n: usize = if skipped.len() < 3 { skipped.len() } else { 3 };
    let ghost head = out@;
    let mut i: usize = 0;
    while i < n
        invariant
            i <= n,
            n <= skipped@.len(),
            out@ == head + skip_sample(skipped@.subrange(0, i as int)),
        decreases n - i,
    {
        proof {
            let a = skipped@.subrange(0, i + 1);
            assert(a.drop_last() =~= skipped@.subrange(0, i as int));
            assert(a.last() == skipped@[i as int]);
            if i == 0 {
                assert(a.len() == 1 && a[0] == skipped@[0]);
            }
        }
        if i > 0 {
            push_str(&mut out, "；");
        }
        push_all(&mut out, &chars_of_string(&skipped[i].path));
        push_str(&mut out, " (");
        push_all(&mut out, &chars_of_string(&skipped[i].reason));
        push_str(&mut out, ")");
        i += 1;
    }
    assert(out@ =~= import_failure_spec(skipped@));
    string_from_chars(&out)
}


// ---------------------------------------------------------------------------
// Rule-based suggestions
// ---------------------------------------------------------------------------

/// A marker or tag that the rules suggest for a video.
#[derive(Debug)]
pub struct VideoAnalysisSuggestion {
    pub video_id: i64,
    pub time_ms: u64,
    pub text: String,
    pub severity: u8,
    pub tag_hint: Option<String>,
}

/// A suggestion as plain values: `(time, text, severity, tag)`.
pub open spec fn suggestion_view(s: VideoAnalysisSuggestion) -> (u64, Seq<char>, u8, Option<Seq<char>>) {
    (s.time_ms, s.text@, s.severity, match s.tag_hint { Some(t) => Some(t@), None => None })
}

/// The remark speaks of a black screen, in Chinese or (in any case) in English.
pub open spec fn remark_says_black(remark: Option<String>) -> bool {
    match remark {
        Some(r) => contains(r@, "黑场"@) || contains(lower(r@), "black"@),
        None => false,
    }
}

/// The suggestions of the rules, in order: a low frame rate (noted by the caller, who reads
/// the rate), missing or low resolution, a length over ten minutes (at the middle),
/// no audio, and a remark about a black screen.
pub open spec fn suggestions_spec(video: VideoItem, low_fps: Option<Seq<char>>) -> Seq<(u64, Seq<char>, u8, Option<Seq<char>>)> {
    let s0: Seq<(u64, Seq<char>, u8, Option<Seq<char>>)> = match low_fps {
        Some(t) => seq![(0u64, t, 2u8, Some("低帧率"@))],
        None => Seq::empty(),
    };
    let s1 = if video.width == 0 || video.height == 0 {
        s0.push((0u64, "分辨率元数据缺失"@, 2u8, Some("元数据异常"@)))
    } else if video.width < 640 || video.height < 360 {
        s0.push((0u64, "低分辨率："@ + decimal(video.width as nat) + "×"@ + decimal(video.height as nat), 1u8, Some("低分辨率"@)))
    } else {
        s0
    };
    let s2 = if video.duration_ms > 600_000 {
        s1.push(((video.duration_ms / 2) as u64, "素材时长超过 10 分钟，建议抽查中段和结尾"@, 1u8, Some("长素材"@)))
    } else {
        s1
    };
    let s3 = if video.audio_codec is None { s2.push((0u64, "未检测到音频流"@, 1u8, Some("无音频"@))) } else { s2 };
    if remark_says_black(video.remark) { s3.push((0u64, "备注疑似黑场问题"@, 2u8, Some("黑场"@))) } else { s3 }
}

fn suggestion(video: &VideoItem, time_ms: u64, text: String, severity: u8, tag: &str) -> (r: VideoAnalysisSuggestion)
    ensures
        r.video_id == video.id,
        suggestion_view(r) == (time_ms, text@, severity, Some(tag@)),
{
    VideoAnalysisSuggestion { video_id: video.id, time_ms, text, severity, tag_hint: Some(string_of(tag)) }
}

impl VideoAnalysisService {
/// The rules' suggestions for `video`; `low_fps` is the note for a frame rate between 0
/// and 20, which the caller writes since it reads the rate.
pub fn suggest_for_video(video: &VideoItem, low_fps: Option<String>) -> (r: Vec<VideoAnalysisSuggestion>)
    ensures
        r@.map_values(|s: VideoAnalysisSuggestion| suggestion_view(s)) == suggestions_spec(*video, match low_fps {
            Some(t) => Some(t@),
            None => None,
        }),
        forall|i: int| 0 <= i < r@.len() ==> #[trigger] r@[i].video_id == video.id,
{
    let ghost f = |s: VideoAnalysisSuggestion| suggestion_view(s);
    let mut out: Vec<VideoAnalysisSuggestion> = Vec::new();
    let ghost lf = match &low_fps {
        Some(t) => Some(t@),
        None => None::<Seq<char>>,
    };
    match low_fps {
        Some(t) => {
            out.push(suggestion(video, 0, t, 2, "低帧率"));
        },
        None => {},
    }
    proof {
        assert(out@.map_values(f) =~= match lf {
            Some(t) => seq![(0u64, t, 2u8, Some("低帧率"@))],
            None => Seq::<(u64, Seq<char>, u8, Option<Seq<char>>)>::empty(),
        });
    }
    let ghost before = out@;
    if video.width == 0 || video.height == 0 {
        out.push(suggestion(video, 0, string_of("分辨率元数据缺失"), 2, "元数据异常"));
    } else if video.width < 640 || video.height < 360 {
        let mut t: Vec<char> = Vec::new();
        push_str(&mut t, "低分辨率：");
        push_decimal(&mut t, video.width as u64);
        push_str(&mut t, "×");
        push_decimal(&mut t, video.height as u64);
        out.push(suggestion(video, 0, string_from_chars(&t), 1, "低分辨率"));
    }
    proof {
        if out@.len() > before.len() {
            assert(out@.map_values(f) =~= before.map_values(f).push(f(out@.last())));
        }
    }
    let ghost before = out@;
    if video.duration_ms > 600_000 {
        out.push(suggestion(video, video.duration_ms / 2, string_of("素材时长超过 10 分钟，建议抽查中段和结尾"), 1, "长素材"));
        proof {
            assert(out@.map_values(f) =~= before.map_values(f).push(f(out@.last())));
        }
    }
    let ghost before = out@;
    if video.audio_codec.is_none() {
        out.push(suggestion(video, 0, string_of("未检测到音频流"), 1, "无音频"));
        proof {
            assert(out@.map_values(f) =~= before.map_values(f).push(f(out@.last())));
        }
    }
    let black = match &video.remark {
        Some(r) => {
            let rc = chars_of_string(r);
            contains_exec(&rc, &chars_of("黑场")) || contains_exec(&lower_vec(&rc), &chars_of("black"))
        },
        None => false,
    };
    let ghost before = out@;
    if black {
        out.push(suggestion(video, 0, string_of("备注疑似黑场问题"), 2, "黑场"));
        proof {
            assert(out@.map_values(f) =~= before.map_values(f).push(f(out@.last())));
        }
    }
    out
}
}


// ---------------------------------------------------------------------------
// ffprobe reports
// ---------------------------------------------------------------------------

/// One stream of an ffprobe report, as read from its JSON.
#[derive(Debug)]
pub struct ProbeStream {
    pub codec_type: Option<String>,
    pub codec_name: Option<String>,
    pub width: Option<u32>,
    pub height: Option<u32>,
    pub tags: Vec<(String, String)>,
}

/// The format section of an ffprobe report, its duration already in whole milliseconds.
#[derive(Debug)]
pub struct ProbeFormat {
    pub duration_ms: Option<u64>,
    pub bit_rate: Option<String>,
    pub tags: Vec<(String, String)>,
}

/// An ffprobe report of a video file.
#[derive(Debug)]
pub struct ProbeReport {
    pub format: Option<ProbeFormat>,
    pub streams: Option<Vec<ProbeStream>>,
}

/// What a report tells of a video: its stream properties, the recording device, and which
/// stream's frame rate is the video's.
#[derive(Debug)]
pub struct ProbeSummary {
    pub metadata: crate::video::domain::VideoMetadata,
    pub device_model: Option<String>,
    pub video_stream: Option<usize>,
}

pub open spec fn stream_kind(s: ProbeStream) -> Seq<char> {
    match s.codec_type {
        Some(k) => k@,
        None => Seq::empty(),
    }
}

/// The stream properties after the first `n` streams, as `(width, height, video codec,
/// video stream, audio codec, device)`: the first video stream that gives a width sets
/// the picture (a video stream without one leaves it to the next), the first audio stream
/// sets the audio codec (one without a codec name leaves it to the next), and the tags of
/// each stream in turn may name the device while none is known.
pub open spec fn probe_streams(
    streams: Seq<ProbeStream>,
    n: nat,
    device: Option<Seq<char>>,
) -> (u32, u32, Seq<char>, Option<int>, Option<Seq<char>>, Option<Seq<char>>)
    decreases n,
{
    if n == 0 {
        (0, 0, Seq::empty(), None, None, device)
    } else {
        let (w, h, c, vs, a, d) = probe_streams(streams, (n - 1) as nat, device);
        let st = streams[n - 1];
        let k = stream_kind(st);
        let d2 = if d is None { device_from_tags_spec(st.tags@) } else { d };
        if k == "video"@ && w == 0 {
            (
                match st.width { Some(x) => x, None => 0u32 },
                match st.height { Some(x) => x, None => 0u32 },
                match st.codec_name { Some(x) => x@, None => Seq::empty() },
                Some(n - 1),
                a,
                d2,
            )
        } else if k == "audio"@ && a is None {
            (w, h, c, vs, opt_chars(st.codec_name), d2)
        } else {
            (w, h, c, vs, a, d2)
        }
    }
}

/// The bit rate of a format section in kbit/s: its `bit_rate` read as an unsigned number
/// of bits, divided by 1000 and cut to 32 bits.
pub open spec fn probe_bitrate(f: Option<ProbeFormat>) -> Option<u32> {
    match f {
        Some(fm) => match fm.bit_rate {
            Some(b) => match parse_unsigned(b@, u64::MAX as nat) {
                Some(v) => Some(((v as u64) / 1000) as u32),
                None => None,
            },
            None => None,
        },
        None => None,
    }
}

fn kind_is(s: &ProbeStream, kind: &str) -> (r: bool)
    ensures
        r == (stream_kind(*s) == kind@),
{
    match &s.codec_type {
        Some(k) => {
            let a = chars_of_string(k);
            let b = chars_of(kind);
            eq_vec(&a, &b)
        },
        None => {
            let b = chars_of(kind);
            proof {
                assert(kind@.len() == 0 ==> kind@ =~= Seq::<char>::empty());
            }
            b.len() == 0
        },
    }
}

/// Reads what an ffprobe report tells of a video. The duration comes from the format
/// section (0 without one), the bit rate from its `bit_rate`, the device from its tags or
/// else from the streams' (see [`probe_streams`]). The frame rate of the chosen video
/// stream is read by the caller.
pub fn summarize_probe(report: &ProbeReport) -> (r: ProbeSummary)
    ensures
        ({
            let fdev = match report.format {
                Some(f) => device_from_tags_spec(f.tags@),
                None => None,
            };
            let streams = match report.streams {
                Some(v) => v@,
                None => Seq::empty(),
            };
            let (w, h, c, vs, a, d) = probe_streams(streams, streams.len(), fdev);
            &&& r.metadata.duration_ms == (match report.format {
                Some(f) => match f.duration_ms { Some(x) => x, None => 0u64 },
                None => 0u64,
            })
            &&& r.metadata.bitrate_kbps == probe_bitrate(report.format)
            &&& r.metadata.width == w
            &&& r.metadata.height == h
            &&& r.metadata.video_codec@ == c
            &&& opt_chars(r.metadata.audio_codec) == a
            &&& opt_chars(r.device_model) == d
            &&& (match r.video_stream { Some(i) => Some(i as int), None => None }) == vs
        }),
{
    let mut duration_ms: u64 = 0;
    let mut bitrate_kbps: Option<u32> = None;
    let mut device: Option<String> = None;
    match &report.format {
        Some(f) => {
            device = device_model_from_tags(&f.tags);
            match f.duration_ms {
                Some(x) => {
                    duration_ms = x;
                },
                None => {},
            }
            match &f.bit_rate {
                Some(b) => {
                    let cs = chars_of_string(b);
                    match crate::text::parse_unsigned_vec(&cs, u64::MAX) {
                        Some(v) => {
                            bitrate_kbps = Some((v / 1000) as u32);
                        },
                        None => {},
                    }
                },
                None => {},
            }
        },
        None => {},
    }
    let ghost fdev = opt_chars(device);
    let mut width: u32 = 0;
    let mut height: u32 = 0;
    let mut codec: String = String::new();
    let mut stream_idx: Option<usize> = None;
    let mut audio: Option<String> = None;
    match &report.streams {
        Some(streams) => {
            let mut i: usize = 0;
            while i < streams.len()
                invariant
                    i <= streams@.len(),
                    ({
                        let (w, h, c, vs, a, d) = probe_streams(streams@, i as nat, fdev);
                        &&& width == w
                        &&& height == h
                        &&& codec@ == c
                        &&& (match stream_idx { Some(j) => Some(j as int), None => None }) == vs
                        &&& opt_chars(audio) == a
                        &&& opt_chars(device) == d
                    }),
                decreases streams@.len() - i,
            {
                let st = &streams[i];
                if kind_is(st, "video") && width == 0 {
                    width = match st.width {
                        Some(x) => x,
                        None => 0,
                    };
                    height = match st.height {
                        Some(x) => x,
                        None => 0,
                    };
                    codec = match &st.codec_name {
                        Some(x) => x.clone(),
                        None => String::new(),
                    };
                    stream_idx = Some(i);
                } else if kind_is(st, "audio") && audio.is_none() {
                    audio = crate::server::models::clone_opt_string(&st.codec_name);
                }
                if device.is_none() {
                    device = device_model_from_tags(&st.tags);
                }
                i += 1;
            }
        },
        None => {},
    }
    let metadata = crate::video::domain::VideoMetadata {
        duration_ms,
        width,
        height,
        video_codec: codec,
        audio_codec: audio,
        bitrate_kbps,
    };
    ProbeSummary { metadata, device_model: device, video_stream: stream_idx }
}

} // verus!
