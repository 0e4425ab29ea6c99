//! Defect packages made from compared videos: what goes in, how the package and its
//! files are named, the clip window around the defect, and how many steps the work takes.
//! Exporting, copying and zipping are done by the caller.
use vstd::prelude::*;

use crate::paths::{file_stem, file_stem_of, parent, parent_of};
use crate::text::{
    chars_of, chars_of_string, is_white_space, push_all, push_signed, push_str, signed_decimal,
    starts_with, starts_with_exec, string_from_chars, string_of, strip_leading, strip_leading_vec,
    strip_trailing, strip_trailing_vec,
};
use crate::video::domain::VideoItem;
use crate::video::grid_video::GridVideoExportQuality;

verus! {

/// The clip reaches this far before and after the defect unless told otherwise.
pub const DEFAULT_DEFECT_HALF_WINDOW_MS: u64 = 5_000;

/// What to put in a defect package.
#[derive(Debug)]
pub struct CreateDefectRequest {
    pub batch_id: i64,
    pub title: String,
    pub description: String,
    pub severity: u8,
    pub time_ms: u64,
    pub half_window_ms: u64,
    pub videos: Vec<VideoItem>,
    pub output_dir: String,
    pub include_grid_png: bool,
    pub include_compare_clip: bool,
    pub include_frames: bool,
    pub include_sources: bool,
    pub quality: GridVideoExportQuality,
    pub mark_issue: bool,
    pub set_needs_fix: bool,
    pub align_method: String,
}

impl CreateDefectRequest {
    /// The light package: grid, clip and frames in high quality, without the sources.
    pub fn apply_light_preset(&mut self)
        ensures
            final(self).include_grid_png && final(self).include_compare_clip && final(self).include_frames,
            !final(self).include_sources,
            final(self).quality == GridVideoExportQuality::High,
            final(self).videos@ == old(self).videos@,
            final(self).time_ms == old(self).time_ms,
            final(self).half_window_ms == old(self).half_window_ms,
            final(self).mark_issue == old(self).mark_issue,
            final(self).set_needs_fix == old(self).set_needs_fix,
    {
        self.include_grid_png = true;
        self.include_compare_clip = true;
        self.include_frames = true;
        self.include_sources = false;
        self.quality = GridVideoExportQuality::High;
    }

    /// The full package: everything, with a lossless clip and the sources.
    pub fn apply_full_preset(&mut self)
        ensures
            final(self).include_grid_png && final(self).include_compare_clip && final(self).include_frames,
            final(self).include_sources,
            final(self).quality == GridVideoExportQuality::Lossless,
            final(self).videos@ == old(self).videos@,
            final(self).time_ms == old(self).time_ms,
            final(self).half_window_ms == old(self).half_window_ms,
            final(self).mark_issue == old(self).mark_issue,
            final(self).set_needs_fix == old(self).set_needs_fix,
    {
        self.include_grid_png = true;
        self.include_compare_clip = true;
        self.include_frames = true;
        self.include_sources = true;
        self.quality = GridVideoExportQuality::Lossless;
    }
}

impl Default for CreateDefectRequest {
    fn default() -> (r: Self)
        ensures
            r.batch_id == 0,
            r.title@.len() == 0 && r.description@.len() == 0,
            r.severity == 2,
            r.time_ms == 0,
            r.half_window_ms == DEFAULT_DEFECT_HALF_WINDOW_MS,
            r.videos@.len() == 0,
            r.output_dir@.len() == 0,
            r.include_grid_png && r.include_compare_clip && r.include_frames && r.include_sources,
            r.quality == GridVideoExportQuality::Lossless,
            r.mark_issue && r.set_needs_fix,
            r.align_method@ == "manual"@,
    {
        proof {
            reveal_strlit("");
        }
        CreateDefectRequest {
            batch_id: 0,
            title: string_of(""),
            description: string_of(""),
            severity: 2,
            time_ms: 0,
            half_window_ms: DEFAULT_DEFECT_HALF_WINDOW_MS,
            videos: Vec::new(),
            output_dir: string_of(""),
            include_grid_png: true,
            include_compare_clip: true,
            include_frames: true,
            include_sources: true,
            quality: GridVideoExportQuality::Lossless,
            mark_issue: true,
            set_needs_fix: true,
            align_method: string_of("manual"),
        }
    }
}

/// A package compares at least two videos.
pub fn check_defect_videos(req: &CreateDefectRequest) -> (r: Result<(), String>)
    ensures
        r is Ok <==> req.videos@.len() >= 2,
        r matches Err(m) ==> m@ == "至少选择 2 个对比视频才能新建缺陷"@,
{
    if req.videos.len() < 2 {
        Err(string_of("至少选择 2 个对比视频才能新建缺陷"))
    } else {
        Ok(())
    }
}

/// The number of progress steps of a package: preparing, the grid, the clip, a frame and
/// a source copy per video when included, the manifest, the markers when any are set,
/// then the zip and the database.
pub open spec fn steps_spec(req: CreateDefectRequest) -> nat {
    let n = req.videos@.len();
    1 + (if req.include_grid_png { 1nat } else { 0 }) + (if req.include_compare_clip { 1nat } else { 0 })
        + (if req.include_frames { n } else { 0 }) + (if req.include_sources { n } else { 0 }) + 1
        + (if req.mark_issue || req.set_needs_fix { 1nat } else { 0 }) + 2
}

pub fn estimate_steps(req: &CreateDefectRequest) -> (r: usize)
    requires
        2 * req.videos@.len() + 7 <= usize::MAX,
    ensures
        r == steps_spec(*req),
{
    let mut n: usize = 1;
    if req.include_grid_png {
        n += 1;
    }
    if req.include_compare_clip {
        n += 1;
    }
    if req.include_frames {
        n += req.videos.len();
    }
    if req.include_sources {
        n += req.videos.len();
    }
    n += 1;
    if req.mark_issue || req.set_needs_fix {
        n += 1;
    }
    n += 2;
    n
}

/// Characters of the Unicode control category `Cc`.
pub open spec fn is_control(c: char) -> bool {
    (c as u32) <= 0x1f || (0x7f <= (c as u32) && (c as u32) <= 0x9f)
}

/// A title character in a folder name: characters that paths forbid, white space and
/// control characters become `_`.
pub open spec fn slug_char(c: char) -> char {
    if c == '/' || c == '\\' || c == ':' || c == '*' || c == '?' || c == '"' || c == '<' || c == '>'
        || c == '|' || is_white_space(c) || is_control(c) {
        '_'
    } else {
        c
    }
}

/// The slug of a title: its first 24 characters made safe, without `_` at either end.
pub open spec fn slug_spec(title: Seq<char>) -> Seq<char> {
    let n = if title.len() < 24 { title.len() } else { 24 };
    let mapped = Seq::new(n as nat, |i: int| slug_char(title[i]));
    strip_trailing(strip_leading(mapped, '_'), '_')
}

fn slug_char_exec(c: char) -> (r: char)
    ensures
        r == slug_char(c),
{
    let u = c as u32;
    let white = (0x09 <= u && u <= 0x0d) || u == 0x20 || u == 0x85 || u == 0xa0 || u == 0x1680
        || (0x2000 <= u && u <= 0x200a) || u == 0x2028 || u == 0x2029 || u == 0x202f || u == 0x205f
        || u == 0x3000;
    let control = u <= 0x1f || (0x7f <= u && u <= 0x9f);
    if c == '/' || c == '\\' || c == ':' || c == '*' || c == '?' || c == '"' || c == '<' || c == '>'
        || c == '|' || white || control {
        '_'
    } else {
        c
    }
}

pub fn sanitize_slug(title: &str) -> (r: String)
    ensures
        r@ == slug_spec(title@),
{
    let t = chars_of(title);
    let n: usize = if t.len() < 24 { t.len() } else { 24 };
    let mut mapped: Vec<char> = Vec::new();
    let mut i: usize = 0;
    while i < n
        invariant
            i <= n,
            n <= t@.len(),
            t@ == title@,
            mapped@ == Seq::new(i as nat, |k: int| slug_char(title@[k])),
        decreases n - i,
    {
        mapped.push(slug_char_exec(t[i]));
        proof {
            assert(mapped@ =~= Seq::new((i + 1) as nat, |k: int| slug_char(title@[k])));
        }
        i += 1;
    }
    let lead = strip_leading_vec(&mapped, '_');
    let both = strip_trailing_vec(&lead, '_');
    string_from_chars(&both)
}

/// The clip around a defect at `time_ms`: half a window of at least 500 ms on each side,
/// starting no earlier than zero, and lasting two half windows (at least 500 ms).
pub open spec fn defect_window_spec(time_ms: u64, half_window_ms: u64) -> (u64, u64, u64) {
    let half: u64 = if half_window_ms < 500 { 500 } else { half_window_ms };
    let start: u64 = if time_ms >= half { (time_ms - half) as u64 } else { 0 };
    let doubled: u64 = if 2 * half > u64::MAX { u64::MAX } else { (2 * half) as u64 };
    (half, start, if doubled < 500 { 500 } else { doubled })
}

/// `(half window, clip start, clip length)`.
pub fn defect_window(time_ms: u64, half_window_ms: u64) -> (r: (u64, u64, u64))
    ensures
        r == defect_window_spec(time_ms, half_window_ms),
{
    let half: u64 = if half_window_ms < 500 { 500 } else { half_window_ms };
    let start: u64 = time_ms.saturating_sub(half);
    let doubled: u64 = if half > u64::MAX / 2 { u64::MAX } else { half * 2 };
    (half, start, if doubled < 500 { 500 } else { doubled })
}

/// The name of the comparison clip in a package.
pub fn compare_clip_name(quality: GridVideoExportQuality) -> (r: &'static str)
    ensures
        r@ == (if quality == GridVideoExportQuality::Lossless { "compare_clip_lossless.mp4"@ } else { "compare_clip.mp4"@ }),
{
    match quality {
        GridVideoExportQuality::Lossless => "compare_clip_lossless.mp4",
        GridVideoExportQuality::High => "compare_clip.mp4",
    }
}

/// The package's folder: `defect_<slug>_<stamp>`, or `defect_<stamp>` when the slug is
/// empty.
pub open spec fn defect_folder_spec(slug: Seq<char>, stamp: Seq<char>) -> Seq<char> {
    if slug.len() == 0 { "defect_"@ + stamp } else { "defect_"@ + slug + "_"@ + stamp }
}

pub fn defect_folder_name(slug: &str, stamp: &str) -> (r: String)
    ensures
        r@ == defect_folder_spec(slug@, stamp@),
{
    let sc = chars_of(slug);
    let mut out: Vec<char> = Vec::new();
    push_str(&mut out, "defect_");
    if sc.len() > 0 {
        push_all(&mut out, &sc);
        push_str(&mut out, "_");
    }
    push_str(&mut out, stamp);
    string_from_chars(&out)
}

/// The still of a video in a package: `<id>_<file stem>.jpg`, with `frame` for a path
/// without a stem.
pub open spec fn defect_frame_spec(id: i64, path: Seq<char>) -> Seq<char> {
    signed_decimal(id as int) + "_"@ + (match file_stem_of(path) {
        Some(s) => s,
        None => "frame"@,
    }) + ".jpg"@
}

pub fn defect_frame_name(video: &VideoItem) -> (r: String)
    ensures
        r@ == defect_frame_spec(video.id, video.file_path@),
{
    let mut out: Vec<char> = Vec::new();
    push_signed(&mut out, video.id);
    push_str(&mut out, "_");
    match file_stem(video.file_path.as_str()) {
        Some(s) => push_all(&mut out, &chars_of_string(&s)),
        None => push_str(&mut out, "frame"),
    }
    push_str(&mut out, ".jpg");
    string_from_chars(&out)
}

/// Files under `sources/` are stored as they are; the rest are compressed.
pub fn zip_stores_uncompressed(rel_path: &str) -> (r: bool)
    ensures
        r == starts_with(rel_path@, "sources/"@),
{
    starts_with_exec(&chars_of(rel_path), &chars_of("sources/"))
}

/// Where a package goes by default: the folder of the first video, else `.`.
pub open spec fn default_output_spec(videos: Seq<VideoItem>) -> Seq<char> {
    if videos.len() > 0 && parent_of(videos[0].file_path@) is Some {
        parent_of(videos[0].file_path@).unwrap()
    } else {
        "."@
    }
}

pub fn default_defect_output_dir(videos: &Vec<VideoItem>) -> (r: String)
    ensures
        r@ == default_output_spec(videos@),
{
    if videos.len() > 0 {
        match parent(videos[0].file_path.as_str()) {
            Some(p) => return p,
            None => {},
        }
    }
    string_of(".")
}

/// A slug is at most 24 characters, holds none of the characters that paths forbid and no
/// white space, and neither starts nor ends with `_`.
pub proof fn law_slug_is_safe(title: Seq<char>)
    ensures
        slug_spec(title).len() <= 24,
        forall|i: int| 0 <= i < slug_spec(title).len() ==> slug_char(#[trigger] slug_spec(title)[i]) == slug_spec(title)[i],
        slug_spec(title).len() > 0 ==> slug_spec(title)[0] != '_' && slug_spec(title).last() != '_',
{
    let n = if title.len() < 24 { title.len() } else { 24 };
    let mapped = Seq::new(n as nat, |i: int| slug_char(title[i]));
    let lead = strip_leading(mapped, '_');
    lemma_strip_leading_sub(mapped, '_');
    lemma_strip_trailing_prefix(lead, '_');
    let t = strip_trailing(lead, '_');
    assert forall|i: int| 0 <= i < t.len() implies slug_char(#[trigger] t[i]) == t[i] by {
        let k = mapped.len() - lead.len() + i;
        assert(t[i] == lead[i]);
        assert(lead[i] == mapped[k]);
        assert(mapped[k] == slug_char(title[k]));
    }
    if t.len() > 0 {
        lemma_strip_leading_head(mapped, '_');
        assert(t[0] == lead[0]);
        lemma_strip_trailing_last(lead, '_');
    }
}

proof fn lemma_strip_leading_sub(s: Seq<char>, c: char)
    ensures
        strip_leading(s, c).len() <= s.len(),
        strip_leading(s, c) == s.subrange(s.len() - strip_leading(s, c).len(), s.len() as int),
    decreases s.len(),
{
    if s.len() > 0 && s[0] == c {
        lemma_strip_leading_sub(s.drop_first(), c);
        assert(s.drop_first().subrange(s.drop_first().len() - strip_leading(s, c).len(), s.drop_first().len() as int)
            =~= s.subrange(s.len() - strip_leading(s, c).len(), s.len() as int));
    } else {
        assert(s.subrange(0, s.len() as int) =~= s);
    }
}

proof fn lemma_strip_leading_head(s: Seq<char>, c: char)
    ensures
        strip_leading(s, c).len() > 0 ==> strip_leading(s, c)[0] != c,
    decreases s.len(),
{
    if s.len() > 0 && s[0] == c {
        lemma_strip_leading_head(s.drop_first(), c);
    }
}

proof fn lemma_strip_trailing_prefix(s: Seq<char>, c: char)
    ensures
        strip_trailing(s, c).len() <= s.len(),
        strip_trailing(s, c) == s.subrange(0, strip_trailing(s, c).len() as int),
    decreases s.len(),
{
    if s.len() > 0 && s.last() == c {
        lemma_strip_trailing_prefix(s.drop_last(), c);
        assert(s.drop_last().subrange(0, strip_trailing(s, c).len() as int) =~= s.subrange(0, strip_trailing(s, c).len() as int));
    } else {
        assert(s.subrange(0, s.len() as int) =~= s);
    }
}

proof fn lemma_strip_trailing_last(s: Seq<char>, c: char)
    ensures
        strip_trailing(s, c).len() > 0 ==> strip_trailing(s, c).last() != c,
    decreases s.len(),
{
    if s.len() > 0 && s.last() == c {
        lemma_strip_trailing_last(s.drop_last(), c);
    }
}

} // verus!
