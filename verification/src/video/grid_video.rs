//! Side-by-side comparison videos: cell sizes that never upscale a source, how long all
//! sources can play together, captions, and the ffmpeg filter graph and arguments. Running
//! ffmpeg and writing caption files is done by the caller.
use vstd::prelude::*;

use crate::paths::{file_name, file_name_of};
use crate::text::{
    chars_of, chars_of_string, decimal, eq_vec, push_all, push_decimal, push_decimal_padded,
    push_str, replace_all, replace_all_vec, string_from_chars, string_of, trim, trim_vec, zero_pad,
};
use crate::video::contact_sheet::{grid_dimensions, grid_spec};
use crate::video::domain::{effective_time_spec, VideoItem};

verus! {

pub const DEFAULT_CELL_WIDTH: u32 = 640;
pub const DEFAULT_CELL_HEIGHT: u32 = 360;
pub const DEFAULT_CLIP_DURATION_MS: u64 = 10_000;
pub const MIN_CLIP_DURATION_MS: u64 = 500;
pub const CAPTION_FOOTER_HEIGHT: u32 = 44;
pub const CAPTION_FONT_SIZE: u32 = 22;

/// Encoding quality of an export.
#[derive(Debug, Clone, Copy, PartialEq, Eq, Structural)]
pub enum GridVideoExportQuality {
    High,
    Lossless,
}

impl GridVideoExportQuality {
    pub fn label(self) -> (r: &'static str)
        ensures
            r@ == (match self {
                GridVideoExportQuality::High => "高质量"@,
                GridVideoExportQuality::Lossless => "无损"@,
            }),
    {
        match self {
            GridVideoExportQuality::High => "高质量",
            GridVideoExportQuality::Lossless => "无损",
        }
    }
}

/// What the caption under each cell shows.
#[derive(Debug, Clone, Copy, PartialEq, Eq, Structural)]
pub enum GridVideoCaptionMode {
    NoCaption,
    DeviceModel,
    Filename,
    Remark,
    DeviceAndFilename,
}

impl Default for GridVideoCaptionMode {
    /// Captions show the device model.
    fn default() -> (r: Self)
        ensures
            r == GridVideoCaptionMode::DeviceModel,
    {
        GridVideoCaptionMode::DeviceModel
    }
}

impl GridVideoCaptionMode {
    pub fn label(self) -> (r: &'static str)
        ensures
            r@ == (match self {
                GridVideoCaptionMode::NoCaption => "不叠加"@,
                GridVideoCaptionMode::DeviceModel => "设备型号"@,
                GridVideoCaptionMode::Filename => "文件名"@,
                GridVideoCaptionMode::Remark => "备注"@,
                GridVideoCaptionMode::DeviceAndFilename => "设备 + 文件名"@,
            }),
    {
        match self {
            GridVideoCaptionMode::NoCaption => "不叠加",
            GridVideoCaptionMode::DeviceModel => "设备型号",
            GridVideoCaptionMode::Filename => "文件名",
            GridVideoCaptionMode::Remark => "备注",
            GridVideoCaptionMode::DeviceAndFilename => "设备 + 文件名",
        }
    }

    /// The modes in menu order.
    pub fn all() -> (r: [GridVideoCaptionMode; 5])
        ensures
            r@ == seq![
                GridVideoCaptionMode::DeviceModel,
                GridVideoCaptionMode::DeviceAndFilename,
                GridVideoCaptionMode::Filename,
                GridVideoCaptionMode::Remark,
                GridVideoCaptionMode::NoCaption,
            ],
    {
        let r = [
            GridVideoCaptionMode::DeviceModel,
            GridVideoCaptionMode::DeviceAndFilename,
            GridVideoCaptionMode::Filename,
            GridVideoCaptionMode::Remark,
            GridVideoCaptionMode::NoCaption,
        ];
        assert(r@ =~= seq![
            GridVideoCaptionMode::DeviceModel,
            GridVideoCaptionMode::DeviceAndFilename,
            GridVideoCaptionMode::Filename,
            GridVideoCaptionMode::Remark,
            GridVideoCaptionMode::NoCaption,
        ]);
        r
    }

    /// Height of the caption strip under a cell: none without captions.
    pub fn footer_height(self) -> (r: u32)
        ensures
            r == (if self == GridVideoCaptionMode::NoCaption { 0 } else { CAPTION_FOOTER_HEIGHT }),
    {
        if self == GridVideoCaptionMode::NoCaption {
            0
        } else {
            CAPTION_FOOTER_HEIGHT
        }
    }
}

/// A comparison video to export.
#[derive(Debug)]
pub struct GridVideoExportRequest {
    pub videos: Vec<VideoItem>,
    pub start_time_ms: u64,
    pub duration_ms: u64,
    pub dest: String,
    /// `0` means the size follows the sources.
    pub cell_width: u32,
    pub cell_height: u32,
    pub quality: GridVideoExportQuality,
    pub caption_mode: GridVideoCaptionMode,
}

impl GridVideoExportRequest {
    pub fn new(videos: Vec<VideoItem>, start_time_ms: u64, duration_ms: u64, dest: String) -> (r: Self)
        ensures
            r.videos@ == videos@,
            r.start_time_ms == start_time_ms,
            r.duration_ms == duration_ms,
            r.dest == dest,
            r.cell_width == 0 && r.cell_height == 0,
            r.quality == GridVideoExportQuality::High,
            r.caption_mode == GridVideoCaptionMode::DeviceModel,
    {
        GridVideoExportRequest {
            videos,
            start_time_ms,
            duration_ms,
            dest,
            cell_width: 0,
            cell_height: 0,
            quality: GridVideoExportQuality::High,
            caption_mode: GridVideoCaptionMode::DeviceModel,
        }
    }
}

/// The largest positive width among the first `k` videos, if any.
pub open spec fn max_width(v: Seq<VideoItem>) -> Option<u32>
    decreases v.len(),
{
    if v.len() == 0 {
        None
    } else {
        let rest = max_width(v.drop_last());
        let w = v.last().width;
        if w == 0 {
            rest
        } else {
            match rest {
                Some(m) => Some(if w > m { w } else { m }),
                None => Some(w),
            }
        }
    }
}

/// The largest positive height among the videos, if any.
pub open spec fn max_height(v: Seq<VideoItem>) -> Option<u32>
    decreases v.len(),
{
    if v.len() == 0 {
        None
    } else {
        let rest = max_height(v.drop_last());
        let h = v.last().height;
        if h == 0 {
            rest
        } else {
            match rest {
                Some(m) => Some(if h > m { h } else { m }),
                None => Some(h),
            }
        }
    }
}

/// A cell as large as the largest source in each direction, so that no source is enlarged;
/// 640×360 where no size is known.
pub fn compute_quality_cell_size(videos: &Vec<VideoItem>) -> (r: (u32, u32))
    ensures
        r.0 == (match max_width(videos@) {
            Some(w) => w,
            None => DEFAULT_CELL_WIDTH,
        }),
        r.1 == (match max_height(videos@) {
            Some(h) => h,
            None => DEFAULT_CELL_HEIGHT,
        }),
{
    let mut w: Option<u32> = None;
    let mut h: Option<u32> = None;
    let mut i: usize = 0;
    while i < videos.len()
        invariant
            i <= videos@.len(),
            w == max_width(videos@.subrange(0, i as int)),
            h == max_height(videos@.subrange(0, i as int)),
        decreases videos@.len() - i,
    {
        proof {
            assert(videos@.subrange(0, i + 1).drop_last() =~= videos@.subrange(0, i as int));
        }
        let vw = videos[i].width;
        let vh = videos[i].height;
        if vw != 0 {
            w = match w {
                Some(m) => Some(if vw > m { vw } else { m }),
                None => Some(vw),
            };
        }
        if vh != 0 {
            h = match h {
                Some(m) => Some(if vh > m { vh } else { m }),
                None => Some(vh),
            };
        }
        i += 1;
    }
    proof {
        assert(videos@.subrange(0, i as int) =~= videos@);
    }
    (match w {
        Some(x) => x,
        None => DEFAULT_CELL_WIDTH,
    }, match h {
        Some(x) => x,
        None => DEFAULT_CELL_HEIGHT,
    })
}

/// The cell size of an export: the requested one (at least 160×90) when both sides are
/// given, else the one that follows the sources.
pub fn resolve_cell_size(videos: &Vec<VideoItem>, width: u32, height: u32) -> (r: (u32, u32))
    ensures
        (width == 0 || height == 0) ==> r == compute_quality_cell_size_spec(videos@),
        (width != 0 && height != 0) ==> r == ((if width < 160 { 160 } else { width }), (if height < 90 { 90 } else { height })),
{
    if width == 0 || height == 0 {
        compute_quality_cell_size(videos)
    } else {
        (if width < 160 { 160 } else { width }, if height < 90 { 90 } else { height })
    }
}

pub open spec fn compute_quality_cell_size_spec(v: Seq<VideoItem>) -> (u32, u32) {
    (match max_width(v) {
        Some(w) => w,
        None => DEFAULT_CELL_WIDTH,
    }, match max_height(v) {
        Some(h) => h,
        None => DEFAULT_CELL_HEIGHT,
    })
}

/// What is left of one video after global time `start_ms`.
pub open spec fn remaining_ms(v: VideoItem, start_ms: u64) -> nat {
    let e = effective_time_spec(start_ms, v.offset_ms);
    let local = if e < v.duration_ms { e } else { v.duration_ms };
    (v.duration_ms - local) as nat
}

/// The shortest remaining time among the videos; zero for none.
pub open spec fn min_remaining(v: Seq<VideoItem>, start_ms: u64) -> nat
    decreases v.len(),
{
    if v.len() == 0 {
        0
    } else if v.len() == 1 {
        remaining_ms(v[0], start_ms)
    } else {
        let rest = min_remaining(v.drop_last(), start_ms);
        let last = remaining_ms(v.last(), start_ms);
        if last < rest { last } else { rest }
    }
}

/// Offsets that keep every shifted time inside the signed range.
pub open spec fn offsets_fit(v: Seq<VideoItem>, start_ms: u64) -> bool {
    &&& start_ms <= i64::MAX
    &&& forall|i: int| 0 <= i < v.len() ==> start_ms + (#[trigger] v[i]).offset_ms <= i64::MAX
}

/// How long all the videos can play together from global time `start_ms`.
pub fn max_export_duration_ms(videos: &Vec<VideoItem>, start_ms: u64) -> (r: u64)
    requires
        offsets_fit(videos@, start_ms),
    ensures
        r == min_remaining(videos@, start_ms),
{
    let mut best: u64 = 0;
    let mut i: usize = 0;
    while i < videos.len()
        invariant
            i <= videos@.len(),
            offsets_fit(videos@, start_ms),
            best == min_remaining(videos@.subrange(0, i as int), start_ms),
        decreases videos@.len() - i,
    {
        proof {
            assert(videos@.subrange(0, i + 1).drop_last() =~= videos@.subrange(0, i as int));
            assert(start_ms + videos@[i as int].offset_ms <= i64::MAX);
        }
        let v = &videos[i];
        let e = v.effective_time_ms(start_ms);
        let local = if e < v.duration_ms { e } else { v.duration_ms };
        let rem = v.duration_ms - local;
        best = if i == 0 { rem } else if rem < best { rem } else { best };
        i += 1;
    }
    proof {
        assert(videos@.subrange(0, i as int) =~= videos@);
    }
    best
}

// ---------------------------------------------------------------------------
// Filter graph
// ---------------------------------------------------------------------------

/// `<x>_<y>` position of cell `i` in a grid of `cols` columns.
pub open spec fn xstack_item(i: nat, cols: nat, cell_w: nat, cell_h: nat) -> Seq<char> {
    decimal((i % cols) * cell_w) + "_"@ + decimal((i / cols) * cell_h)
}

/// The positions of the first `k` cells, joined by `|`.
pub open spec fn xstack_layout_spec(k: nat, cols: nat, cell_w: nat, cell_h: nat) -> Seq<char>
    decreases k,
{
    if k == 0 {
        Seq::empty()
    } else if k == 1 {
        xstack_item(0, cols, cell_w, cell_h)
    } else {
        xstack_layout_spec((k - 1) as nat, cols, cell_w, cell_h) + "|"@ + xstack_item((k - 1) as nat, cols, cell_w, cell_h)
    }
}

/// Sizes for which every position of a grid of `count` cells fits in 32 bits.
pub open spec fn xstack_fits(count: nat, cols: nat, cell_w: nat, cell_h: nat) -> bool {
    &&& cols > 0
    &&& count <= u32::MAX
    &&& cols * cell_w <= u32::MAX
    &&& (count / cols) * cell_h <= u32::MAX
}

/// The `layout=` value of ffmpeg's `xstack`: the top-left corner of each cell.
pub fn build_xstack_layout(count: usize, cols: usize, cell_w: u32, cell_h: u32) -> (r: String)
    requires
        xstack_fits(count as nat, cols as nat, cell_w as nat, cell_h as nat),
    ensures
        r@ == xstack_layout_spec(count as nat, cols as nat, cell_w as nat, cell_h as nat),
{
    let mut out: Vec<char> = Vec::new();
    let mut i: usize = 0;
    while i < count
        invariant
            i <= count,
            xstack_fits(count as nat, cols as nat, cell_w as nat, cell_h as nat),
            out@ == xstack_layout_spec(i as nat, cols as nat, cell_w as nat, cell_h as nat),
        decreases count - i,
    {
        let row = i / cols;
        let col = i % cols;
        assert(col * cell_w <= cols * cell_w) by (nonlinear_arith)
            requires col < cols;
        assert(row * cell_h <= (count / cols) * cell_h) by (nonlinear_arith)
            requires row == i / cols, i < count, cols > 0;
        if i > 0 {
            push_str(&mut out, "|");
        }
        push_decimal(&mut out, (col as u64) * (cell_w as u64));
        push_str(&mut out, "_");
        push_decimal(&mut out, (row as u64) * (cell_h as u64));
        i += 1;
    }
    string_from_chars(&out)
}

/// A path as a filter option value: `\`, `:`, `'` and `,` escaped with `\`.
pub open spec fn escape_filter_spec(p: Seq<char>) -> Seq<char> {
    let a = replace_all(p, seq!['\\'], seq!['\\', '\\']);
    let b = replace_all(a, seq![':'], seq!['\\', ':']);
    let c = replace_all(b, seq!['\''], seq!['\\', '\'']);
    replace_all(c, seq![','], seq!['\\', ','])
}

fn escape_filter_value(p: &str) -> (r: Vec<char>)
    ensures
        r@ == escape_filter_spec(p@),
{
    let s = chars_of(p);
    let bs = vec!['\\'];
    let bs2 = vec!['\\', '\\'];
    let colon = vec![':'];
    let colon2 = vec!['\\', ':'];
    let quote = vec!['\''];
    let quote2 = vec!['\\', '\''];
    let comma = vec![','];
    let comma2 = vec!['\\', ','];
    proof {
        assert(bs@ =~= seq!['\\']);
        assert(bs2@ =~= seq!['\\', '\\']);
        assert(colon@ =~= seq![':']);
        assert(colon2@ =~= seq!['\\', ':']);
        assert(quote@ =~= seq!['\'']);
        assert(quote2@ =~= seq!['\\', '\'']);
        assert(comma@ =~= seq![',']);
        assert(comma2@ =~= seq!['\\', ',']);
    }
    let a = replace_all_vec(&s, &bs, &bs2);
    let b = replace_all_vec(&a, &colon, &colon2);
    let c = replace_all_vec(&b, &quote, &quote2);
    replace_all_vec(&c, &comma, &comma2)
}

/// The padding, pixel-format and timestamp steps shared by every input.
pub open spec fn pad_common(cell_w: nat, cell_h: nat) -> Seq<char> {
    "pad="@ + decimal(cell_w) + ":"@ + decimal(cell_h)
        + ":(ow-iw)/2:(oh-ih)/2:color=black,setsar=1,setpts=PTS-STARTPTS,format=yuv420p"@
}

/// The filter of input `idx`: scaled down with Lanczos only when the source is larger than
/// the cell, padded to the cell, and, with a caption file and a font, a caption strip drawn
/// under it; labelled `[v<idx>]`.
pub open spec fn input_filter_spec(idx: nat, width: u32, height: u32, cell_w: nat, cell_h: nat, caption: Option<(Seq<char>, Seq<char>)>) -> Seq<char> {
    let common = pad_common(cell_w, cell_h);
    let base = if width > cell_w || height > cell_h {
        "["@ + decimal(idx) + ":v]scale="@ + decimal(cell_w) + ":"@ + decimal(cell_h)
            + ":force_original_aspect_ratio=decrease:flags=lanczos+accurate_rnd+full_chroma_int,"@ + common
    } else {
        "["@ + decimal(idx) + ":v]"@ + common
    };
    match caption {
        Some((text_file, font)) => base + ",pad="@ + decimal(cell_w) + ":"@ + decimal((cell_h + CAPTION_FOOTER_HEIGHT) as nat)
            + ":0:0:color=black,drawtext=fontfile="@ + escape_filter_spec(font) + ":textfile="@
            + escape_filter_spec(text_file) + ":fontcolor=white:fontsize="@ + decimal(CAPTION_FONT_SIZE as nat)
            + ":x=(w-text_w)/2:y="@ + decimal(cell_h) + "+("@ + decimal(CAPTION_FOOTER_HEIGHT as nat)
            + "-text_h)/2[v"@ + decimal(idx) + "]"@,
        None => base + "[v"@ + decimal(idx) + "]"@,
    }
}

pub fn build_input_video_filter_with_caption(input_idx: usize, video: &VideoItem, cell_w: u32, cell_h: u32, text_file: Option<&str>, font_path: Option<&str>) -> (r: String)
    requires
        cell_h + CAPTION_FOOTER_HEIGHT <= u32::MAX,
    ensures
        r@ == input_filter_spec(input_idx as nat, video.width, video.height, cell_w as nat, cell_h as nat, match (text_file, font_path) {
            (Some(t), Some(f)) => Some((t@, f@)),
            _ => None,
        }),
{
    let mut common: Vec<char> = Vec::new();
    push_str(&mut common, "pad=");
    push_decimal(&mut common, cell_w as u64);
    push_str(&mut common, ":");
    push_decimal(&mut common, cell_h as u64);
    push_str(&mut common, ":(ow-iw)/2:(oh-ih)/2:color=black,setsar=1,setpts=PTS-STARTPTS,format=yuv420p");
    let mut out: Vec<char> = Vec::new();
    push_str(&mut out, "[");
    push_decimal(&mut out, input_idx as u64);
    if video.width > cell_w || video.height > cell_h {
        push_str(&mut out, ":v]scale=");
        push_decimal(&mut out, cell_w as u64);
        push_str(&mut out, ":");
        push_decimal(&mut out, cell_h as u64);
        push_str(&mut out, ":force_original_aspect_ratio=decrease:flags=lanczos+accurate_rnd+full_chroma_int,");
    } else {
        push_str(&mut out, ":v]");
    }
    push_all(&mut out, &common);
    match (text_file, font_path) {
        (Some(t), Some(f)) => {
            push_str(&mut out, ",pad=");
            push_decimal(&mut out, cell_w as u64);
            push_str(&mut out, ":");
            push_decimal(&mut out, (cell_h + CAPTION_FOOTER_HEIGHT) as u64);
            push_str(&mut out, ":0:0:color=black,drawtext=fontfile=");
            push_all(&mut out, &escape_filter_value(f));
            push_str(&mut out, ":textfile=");
            push_all(&mut out, &escape_filter_value(t));
            push_str(&mut out, ":fontcolor=white:fontsize=");
            push_decimal(&mut out, CAPTION_FONT_SIZE as u64);
            push_str(&mut out, ":x=(w-text_w)/2:y=");
            push_decimal(&mut out, cell_h as u64);
            push_str(&mut out, "+(");
            push_decimal(&mut out, CAPTION_FOOTER_HEIGHT as u64);
            push_str(&mut out, "-text_h)/2[v");
            push_decimal(&mut out, input_idx as u64);
            push_str(&mut out, "]");
        },
        _ => {
            push_str(&mut out, "[v");
            push_decimal(&mut out, input_idx as u64);
            push_str(&mut out, "]");
        },
    }
    string_from_chars(&out)
}

/// The filter of input `input_idx` without caption.
pub fn build_input_video_filter(input_idx: usize, video: &VideoItem, cell_w: u32, cell_h: u32) -> (r: String)
    requires
        cell_h + CAPTION_FOOTER_HEIGHT <= u32::MAX,
    ensures
        r@ == input_filter_spec(input_idx as nat, video.width, video.height, cell_w as nat, cell_h as nat, None),
{
    build_input_video_filter_with_caption(input_idx, video, cell_w, cell_h, None, None)
}

/// `[v0][v1]…[v<k-1>]`.
pub open spec fn input_labels(k: nat) -> Seq<char>
    decreases k,
{
    if k == 0 {
        Seq::empty()
    } else {
        input_labels((k - 1) as nat) + "[v"@ + decimal((k - 1) as nat) + "]"@
    }
}

/// The caption of input `i`, when there is a caption file for it and a font.
pub open spec fn caption_of(text_files: Seq<String>, font: Option<Seq<char>>, i: int) -> Option<(Seq<char>, Seq<char>)> {
    match font {
        Some(f) => if 0 <= i < text_files.len() { Some((text_files[i]@, f)) } else { None },
        None => None,
    }
}

/// The input filters of the first `k` videos, each followed by `;`.
pub open spec fn input_filters(v: Seq<VideoItem>, k: nat, cell_w: nat, cell_h: nat, text_files: Seq<String>, font: Option<Seq<char>>) -> Seq<char>
    decreases k,
{
    if k == 0 {
        Seq::empty()
    } else {
        let i = (k - 1) as nat;
        input_filters(v, i, cell_w, cell_h, text_files, font)
            + input_filter_spec(i, v[i as int].width, v[i as int].height, cell_w, cell_h, caption_of(text_files, font, i as int)) + ";"@
    }
}

/// The whole filter graph: each input's filter, then `xstack` of all of them into `[outv]`;
/// with a caption for every video, cells are taller by the caption strip.
pub open spec fn filter_complex_spec(v: Seq<VideoItem>, cols: nat, cell_w: nat, cell_h: nat, text_files: Seq<String>, font: Option<Seq<char>>) -> Seq<char> {
    let count = v.len();
    let out_h: nat = if font is Some && text_files.len() == count { (cell_h + CAPTION_FOOTER_HEIGHT) as nat } else { cell_h };
    input_filters(v, count, cell_w, cell_h, text_files, font) + input_labels(count) + "xstack=inputs="@
        + decimal(count) + ":layout="@ + xstack_layout_spec(count, cols, cell_w, out_h) + "[outv]"@
}

pub fn build_filter_complex_with_captions(videos: &Vec<VideoItem>, cols: usize, cell_w: u32, cell_h: u32, text_files: &Vec<String>, font_path: Option<&str>) -> (r: String)
    requires
        cell_h + CAPTION_FOOTER_HEIGHT <= u32::MAX,
        xstack_fits(videos@.len(), cols as nat, cell_w as nat, (cell_h + CAPTION_FOOTER_HEIGHT) as nat),
    ensures
        r@ == filter_complex_spec(videos@, cols as nat, cell_w as nat, cell_h as nat, text_files@, match font_path {
            Some(f) => Some(f@),
            None => None,
        }),
{
    let count = videos.len();
    let ghost font = match font_path {
        Some(f) => Some(f@),
        None => None::<Seq<char>>,
    };
    let out_h: u32 = if font_path.is_some() && text_files.len() == count { cell_h + CAPTION_FOOTER_HEIGHT } else { cell_h };
    let mut out: Vec<char> = Vec::new();
    let mut i: usize = 0;
    while i < count
        invariant
            i <= count,
            count == videos@.len(),
            cell_h + CAPTION_FOOTER_HEIGHT <= u32::MAX,
            font == (match font_path {
                Some(f) => Some(f@),
                None => None::<Seq<char>>,
            }),
            out@ == input_filters(videos@, i as nat, cell_w as nat, cell_h as nat, text_files@, font),
        decreases count - i,
    {
        let tf: Option<&str> = if i < text_files.len() { Some(text_files[i].as_str()) } else { None };
        let f = build_input_video_filter_with_caption(i, &videos[i], cell_w, cell_h, tf, font_path);
        push_all(&mut out, &chars_of_string(&f));
        push_str(&mut out, ";");
        i += 1;
    }
    let mut labels: Vec<char> = Vec::new();
    let mut k: usize = 0;
    while k < count
        invariant
            k <= count,
            labels@ == input_labels(k as nat),
        decreases count - k,
    {
        push_str(&mut labels, "[v");
        push_decimal(&mut labels, k as u64);
        push_str(&mut labels, "]");
        k += 1;
    }
    push_all(&mut out, &labels);
    push_str(&mut out, "xstack=inputs=");
    push_decimal(&mut out, count as u64);
    push_str(&mut out, ":layout=");
    proof {
        assert(xstack_fits(count as nat, cols as nat, cell_w as nat, out_h as nat)) by (nonlinear_arith)
            requires xstack_fits(count as nat, cols as nat, cell_w as nat, (cell_h + CAPTION_FOOTER_HEIGHT) as nat), out_h <= cell_h + CAPTION_FOOTER_HEIGHT;
    }
    let layout = build_xstack_layout(count, cols, cell_w, out_h);
    push_all(&mut out, &chars_of_string(&layout));
    push_str(&mut out, "[outv]");
    string_from_chars(&out)
}

/// The filter graph without captions.
pub fn build_filter_complex(videos: &Vec<VideoItem>, cols: usize, cell_w: u32, cell_h: u32) -> (r: String)
    requires
        cell_h + CAPTION_FOOTER_HEIGHT <= u32::MAX,
        xstack_fits(videos@.len(), cols as nat, cell_w as nat, (cell_h + CAPTION_FOOTER_HEIGHT) as nat),
    ensures
        r@ == filter_complex_spec(videos@, cols as nat, cell_w as nat, cell_h as nat, Seq::empty(), None),
{
    let none: Vec<String> = Vec::new();
    proof {
        assert(none@ =~= Seq::<String>::empty());
    }
    build_filter_complex_with_captions(videos, cols, cell_w, cell_h, &none, None)
}

// ---------------------------------------------------------------------------
// Captions
// ---------------------------------------------------------------------------

/// A non-blank optional text.
pub open spec fn non_blank_text(o: Option<String>) -> Option<Seq<char>> {
    match o {
        Some(s) => if trim(s@).len() > 0 { Some(s@) } else { None },
        None => None,
    }
}

/// The caption of a video: its device model (else its file name), its file name, its remark
/// (else the device), or device and file name joined by ` · ` when they differ.
pub open spec fn caption_spec(v: VideoItem, mode: GridVideoCaptionMode) -> Seq<char> {
    let filename = match file_name_of(v.file_path@) {
        Some(n) => n,
        None => "未命名视频"@,
    };
    let device = match non_blank_text(v.device_model) {
        Some(d) => d,
        None => filename,
    };
    match mode {
        GridVideoCaptionMode::NoCaption => Seq::empty(),
        GridVideoCaptionMode::DeviceModel => device,
        GridVideoCaptionMode::Filename => filename,
        GridVideoCaptionMode::Remark => match non_blank_text(v.remark) {
            Some(r) => r,
            None => device,
        },
        GridVideoCaptionMode::DeviceAndFilename => if device == filename {
            filename
        } else {
            device + " · "@ + filename
        },
    }
}

fn non_blank_text_exec(o: &Option<String>) -> (r: Option<Vec<char>>)
    ensures
        (match r {
            Some(v) => Some(v@),
            None => None,
        }) == non_blank_text(*o),
{
    match o {
        Some(s) => {
            let c = chars_of_string(s);
            if trim_vec(&c).len() > 0 {
                Some(c)
            } else {
                None
            }
        },
        None => None,
    }
}

pub fn caption_text_for_video(video: &VideoItem, mode: GridVideoCaptionMode) -> (r: String)
    ensures
        r@ == caption_spec(*video, mode),
{
    let filename = match file_name(video.file_path.as_str()) {
        Some(n) => chars_of_string(&n),
        None => chars_of("未命名视频"),
    };
    let device = match non_blank_text_exec(&video.device_model) {
        Some(d) => d,
        None => filename.clone(),
    };
    let out: Vec<char> = match mode {
        GridVideoCaptionMode::NoCaption => Vec::new(),
        GridVideoCaptionMode::DeviceModel => device,
        GridVideoCaptionMode::Filename => filename,
        GridVideoCaptionMode::Remark => match non_blank_text_exec(&video.remark) {
            Some(r) => r,
            None => device,
        },
        GridVideoCaptionMode::DeviceAndFilename => {
            if eq_vec(&device, &filename) {
                filename
            } else {
                let mut o = device;
                push_str(&mut o, " · ");
                push_all(&mut o, &filename);
                o
            }
        },
    };
    string_from_chars(&out)
}

// ---------------------------------------------------------------------------
// Export plan and ffmpeg arguments
// ---------------------------------------------------------------------------

/// Seconds with three decimals, as ffmpeg reads them: `<s>.<ms, three digits>`.
pub open spec fn seconds_spec(ms: nat) -> Seq<char> {
    decimal(ms / 1000) + "."@ + zero_pad(decimal(ms % 1000), 3)
}

pub fn seconds_arg(ms: u64) -> (r: String)
    ensures
        r@ == seconds_spec(ms as nat),
{
    let mut out: Vec<char> = Vec::new();
    push_decimal(&mut out, ms / 1000);
    push_str(&mut out, ".");
    push_decimal_padded(&mut out, ms % 1000, 3);
    string_from_chars(&out)
}

/// The encoder arguments: BT.709 4:2:0, then H.264 CRF 17 with AAC audio, or lossless
/// H.264 with the audio copied.
pub open spec fn encode_args_spec(q: GridVideoExportQuality) -> Seq<Seq<char>> {
    seq!["-pix_fmt"@, "yuv420p"@, "-colorspace"@, "bt709"@, "-color_primaries"@, "bt709"@, "-color_trc"@, "bt709"@]
        + match q {
        GridVideoExportQuality::High => seq!["-c:v"@, "libx264"@, "-preset"@, "slow"@, "-crf"@, "17"@, "-c:a"@, "aac"@, "-b:a"@, "192k"@, "-ar"@, "48000"@],
        GridVideoExportQuality::Lossless => seq!["-c:v"@, "libx264"@, "-preset"@, "veryslow"@, "-crf"@, "0"@, "-c:a"@, "copy"@],
    }
}

pub open spec fn string_views(v: Seq<String>) -> Seq<Seq<char>> {
    Seq::new(v.len(), |i: int| v[i]@)
}

fn push_arg(args: &mut Vec<String>, a: &str)
    ensures
        string_views(final(args)@) == string_views(old(args)@).push(a@),
{
    let ghost before = string_views(args@);
    args.push(string_of(a));
    assert(string_views(args@) =~= before.push(a@));
}

/// Appends the encoder arguments of `quality`.
pub fn append_encode_args(args: &mut Vec<String>, quality: GridVideoExportQuality)
    ensures
        string_views(final(args)@) == string_views(old(args)@) + encode_args_spec(quality),
{
    let ghost before = string_views(args@);
    push_arg(args, "-pix_fmt");
    push_arg(args, "yuv420p");
    push_arg(args, "-colorspace");
    push_arg(args, "bt709");
    push_arg(args, "-color_primaries");
    push_arg(args, "bt709");
    push_arg(args, "-color_trc");
    push_arg(args, "bt709");
    match quality {
        GridVideoExportQuality::High => {
            push_arg(args, "-c:v");
            push_arg(args, "libx264");
            push_arg(args, "-preset");
            push_arg(args, "slow");
            push_arg(args, "-crf");
            push_arg(args, "17");
            push_arg(args, "-c:a");
            push_arg(args, "aac");
            push_arg(args, "-b:a");
            push_arg(args, "192k");
            push_arg(args, "-ar");
            push_arg(args, "48000");
        },
        GridVideoExportQuality::Lossless => {
            push_arg(args, "-c:v");
            push_arg(args, "libx264");
            push_arg(args, "-preset");
            push_arg(args, "veryslow");
            push_arg(args, "-crf");
            push_arg(args, "0");
            push_arg(args, "-c:a");
            push_arg(args, "copy");
        },
    }
    assert(string_views(args@) =~= before + encode_args_spec(quality));
}

/// The checked shape of an export: how long, which grid, which cell size.
#[derive(Debug, Clone, Copy, PartialEq, Eq, Structural)]
pub struct GridExportPlan {
    pub duration_ms: u64,
    pub rows: usize,
    pub cols: usize,
    pub cell_w: u32,
    pub cell_h: u32,
}

/// Checks an export: two to six videos, at least 500 ms that all can play from the start
/// time, and a requested length (cut to that) of at least 500 ms.
pub fn plan_grid_export(req: &GridVideoExportRequest) -> (r: Result<GridExportPlan, String>)
    requires
        offsets_fit(req.videos@, req.start_time_ms),
    ensures
        req.videos@.len() < 2 ==> (r matches Err(m) && m@ == "视频拼接导出至少需要 2 个视频"@),
        req.videos@.len() > 6 ==> (r matches Err(m) && m@ == "视频拼接导出最多支持 6 个视频"@),
        2 <= req.videos@.len() <= 6 ==> {
            let max = min_remaining(req.videos@, req.start_time_ms);
            let d = if req.duration_ms < max { req.duration_ms as nat } else { max };
            &&& max < MIN_CLIP_DURATION_MS ==> (r matches Err(m) && m@ == "当前时间点之后没有足够时长可导出"@)
            &&& (max >= MIN_CLIP_DURATION_MS && d < MIN_CLIP_DURATION_MS) ==> (r matches Err(m) && m@ == "导出时长过短（至少 500ms）"@)
            &&& (max >= MIN_CLIP_DURATION_MS && d >= MIN_CLIP_DURATION_MS) ==> (r matches Ok(p) && {
                &&& p.duration_ms == d
                &&& p.rows == grid_spec(req.videos@.len()).0 && p.cols == grid_spec(req.videos@.len()).1
                &&& (p.cell_w, p.cell_h) == (if req.cell_width == 0 || req.cell_height == 0 {
                    compute_quality_cell_size_spec(req.videos@)
                } else {
                    ((if req.cell_width < 160 { 160 } else { req.cell_width }), (if req.cell_height < 90 { 90 } else { req.cell_height }))
                })
            })
        },
{
    let n = req.videos.len();
    if n < 2 {
        return Err(string_of("视频拼接导出至少需要 2 个视频"));
    }
    if n > 6 {
        return Err(string_of("视频拼接导出最多支持 6 个视频"));
    }
    let max = max_export_duration_ms(&req.videos, req.start_time_ms);
    if max < MIN_CLIP_DURATION_MS {
        return Err(string_of("当前时间点之后没有足够时长可导出"));
    }
    let duration_ms = if req.duration_ms < max { req.duration_ms } else { max };
    if duration_ms < MIN_CLIP_DURATION_MS {
        let mut m: Vec<char> = Vec::new();
        push_str(&mut m, "导出时长过短（至少 ");
        push_decimal(&mut m, MIN_CLIP_DURATION_MS);
        push_str(&mut m, "ms）");
        proof {
            reveal_strlit("导出时长过短（至少 ");
            reveal_strlit("ms）");
            reveal_strlit("导出时长过短（至少 500ms）");
            assert(decimal(500) =~= seq!['5', '0', '0']) by {
                reveal_with_fuel(decimal, 4);
            }
        }
        assert(m@ =~= "导出时长过短（至少 500ms）"@);
        return Err(string_from_chars(&m));
    }
    let (rows, cols) = grid_dimensions(n);
    let (cell_w, cell_h) = resolve_cell_size(&req.videos, req.cell_width, req.cell_height);
    Ok(GridExportPlan { duration_ms, rows, cols, cell_w, cell_h })
}


/// Where a comparison video was written, and its size, length, grid, cell size and quality.
#[derive(Debug)]
pub struct GridVideoExportResult {
    pub dest: String,
    pub width: u32,
    pub height: u32,
    pub duration_ms: u64,
    pub rows: usize,
    pub cols: usize,
    pub video_count: usize,
    pub cell_width: u32,
    pub cell_height: u32,
    pub quality: GridVideoExportQuality,
    pub caption_mode: GridVideoCaptionMode,
    pub caption_warning: Option<String>,
}

impl GridVideoExportResult {
    /// The result of encoding `req` as planned by `plan`, with captions `footer_h` pixels
    /// high under each cell in mode `caption_mode` (or the warning why none were drawn):
    /// the video is `cols × cell_w` wide and `rows × (cell_h + footer_h)` high.
    pub fn of_export(
        req: &GridVideoExportRequest,
        plan: &GridExportPlan,
        footer_h: u32,
        caption_mode: GridVideoCaptionMode,
        caption_warning: Option<String>,
    ) -> (r: Self)
        requires
            plan.cols <= u32::MAX,
            plan.rows <= u32::MAX,
            plan.cols * plan.cell_w <= u32::MAX,
            plan.cell_h + footer_h <= u32::MAX,
            plan.rows * (plan.cell_h + footer_h) <= u32::MAX,
        ensures
            r.dest@ == req.dest@,
            r.width == plan.cols * plan.cell_w,
            r.height == plan.rows * (plan.cell_h + footer_h),
            r.duration_ms == plan.duration_ms,
            r.rows == plan.rows,
            r.cols == plan.cols,
            r.video_count == req.videos@.len(),
            r.cell_width == plan.cell_w,
            r.cell_height == plan.cell_h + footer_h,
            r.quality == req.quality,
            r.caption_mode == caption_mode,
            r.caption_warning == caption_warning,
    {
        let cell_h = plan.cell_h + footer_h;
        GridVideoExportResult {
            dest: req.dest.clone(),
            width: (plan.cols as u32) * plan.cell_w,
            height: (plan.rows as u32) * cell_h,
            duration_ms: plan.duration_ms,
            rows: plan.rows,
            cols: plan.cols,
            video_count: req.videos.len(),
            cell_width: plan.cell_w,
            cell_height: cell_h,
            quality: req.quality,
            caption_mode,
            caption_warning,
        }
    }
}

} // verus!
