//! Layout of contact sheets: frames of several videos, or screenshots, in a grid of cells
//! with a header and a footer, split into pages of at most 36 cells. Drawing the sheet is
//! done by the caller.
use vstd::prelude::*;

use crate::server::config::join_path;
use crate::text::{decimal, push_all, push_decimal, push_decimal_padded, push_str, string_from_chars, string_of, zero_pad};
use crate::video::domain::VideoItem;

verus! {

pub const GAP: u32 = 8;
pub const HEADER_H: u32 = 36;
pub const FOOTER_H: u32 = 22;
pub const DEFAULT_CELL_FRAME_W: u32 = 480;
pub const CONTACT_SHEET_PAGE_SIZE: usize = 36;

/// Rows and columns of a grid: one column for one video, two up to four, then three.
pub open spec fn grid_spec(count: nat) -> (nat, nat) {
    if count == 0 {
        (0, 0)
    } else {
        let cols: nat = if count == 1 { 1 } else if count <= 4 { 2 } else { 3 };
        (((count + cols - 1) / (cols as int)) as nat, cols)
    }
}

pub fn grid_dimensions(count: usize) -> (r: (usize, usize))
    ensures
        r.0 == grid_spec(count as nat).0,
        r.1 == grid_spec(count as nat).1,
        count > 0 ==> r.0 * r.1 >= count && (r.0 - 1) * r.1 < count,
{
    if count == 0 {
        return (0, 0);
    }
    let cols: usize = if count == 1 { 1 } else if count <= 4 { 2 } else { 3 };
    let rows = count / cols + if count % cols == 0 { 0 } else { 1 };
    assert(rows == (count + cols - 1) / (cols as int)) by (nonlinear_arith)
        requires rows == count / cols + if count % cols == 0 { 0int } else { 1int }, cols >= 1;
    assert(rows * cols >= count && (rows - 1) * cols < count) by (nonlinear_arith)
        requires rows == count / cols + if count % cols == 0 { 0int } else { 1int }, cols >= 1;
    (rows, cols)
}

/// Sizes of a sheet: cells as wide as a frame and as tall as header, frame and footer, with
/// a gap around and between them.
#[derive(Debug, Clone, Copy, PartialEq, Eq, Structural)]
pub struct GridLayout {
    pub rows: usize,
    pub cols: usize,
    pub cell_w: u32,
    pub cell_h: u32,
    pub sheet_w: u32,
    pub sheet_h: u32,
}

pub open spec fn layout_fits(count: nat, frame_w: nat, frame_h: nat) -> bool {
    let (rows, cols) = grid_spec(count);
    &&& HEADER_H + frame_h + FOOTER_H <= u32::MAX
    &&& cols * frame_w + (cols + 1) * GAP <= u32::MAX
    &&& rows * (HEADER_H + frame_h + FOOTER_H) + (rows + 1) * GAP <= u32::MAX
}

pub fn compute_layout(count: usize, frame_w: u32, frame_h: u32) -> (r: GridLayout)
    requires
        layout_fits(count as nat, frame_w as nat, frame_h as nat),
    ensures
        count == 0 ==> r == (GridLayout { rows: 0, cols: 0, cell_w: 0, cell_h: 0, sheet_w: 0, sheet_h: 0 }),
        count > 0 ==> {
            let (rows, cols) = grid_spec(count as nat);
            &&& r.rows == rows && r.cols == cols
            &&& r.cell_w == frame_w
            &&& r.cell_h == HEADER_H + frame_h + FOOTER_H
            &&& r.sheet_w == cols * frame_w + (cols + 1) * GAP
            &&& r.sheet_h == rows * r.cell_h + (rows + 1) * GAP
        },
{
    let (rows, cols) = grid_dimensions(count);
    if rows == 0 {
        return GridLayout { rows: 0, cols: 0, cell_w: 0, cell_h: 0, sheet_w: 0, sheet_h: 0 };
    }
    let cell_w = frame_w;
    let cell_h = HEADER_H + frame_h + FOOTER_H;
    assert(cols <= 3);
    let c = cols as u32;
    assert(rows <= u32::MAX) by (nonlinear_arith)
        requires rows * (HEADER_H + frame_h + FOOTER_H) + (rows + 1) * GAP <= u32::MAX;
    let rr = rows as u32;
    let sheet_w = c * cell_w + (c + 1) * GAP;
    let sheet_h = rr * cell_h + (rr + 1) * GAP;
    GridLayout { rows, cols, cell_w, cell_h, sheet_w, sheet_h }
}

/// Top-left corner of cell `idx` on a sheet.
pub fn cell_origin(layout: &GridLayout, idx: usize) -> (r: (u32, u32))
    requires
        layout.cols > 0,
        idx < layout.rows * layout.cols,
        layout.sheet_w == layout.cols * layout.cell_w + (layout.cols + 1) * GAP,
        layout.sheet_h == layout.rows * layout.cell_h + (layout.rows + 1) * GAP,
    ensures
        r.0 == GAP + (idx % layout.cols) * (layout.cell_w + GAP),
        r.1 == GAP + (idx / layout.cols) * (layout.cell_h + GAP),
{
    let row = idx / layout.cols;
    let col = idx % layout.cols;
    assert(col < layout.cols && row < layout.rows) by (nonlinear_arith)
        requires row == idx / layout.cols, col == idx % layout.cols, idx < layout.rows * layout.cols, layout.cols > 0;
    assert(layout.cell_w + GAP <= layout.sheet_w) by (nonlinear_arith)
        requires layout.cols >= 1, layout.sheet_w == layout.cols * layout.cell_w + (layout.cols + 1) * GAP;
    assert(layout.rows >= 1) by (nonlinear_arith)
        requires idx < layout.rows * layout.cols;
    assert(layout.cell_h + GAP <= layout.sheet_h) by (nonlinear_arith)
        requires layout.rows >= 1, layout.sheet_h == layout.rows * layout.cell_h + (layout.rows + 1) * GAP;
    assert(GAP + col * (layout.cell_w + GAP) <= layout.sheet_w) by (nonlinear_arith)
        requires col < layout.cols, layout.sheet_w == layout.cols * layout.cell_w + (layout.cols + 1) * GAP;
    assert(GAP + row * (layout.cell_h + GAP) <= layout.sheet_h) by (nonlinear_arith)
        requires row < layout.rows, layout.sheet_h == layout.rows * layout.cell_h + (layout.rows + 1) * GAP;
    let x = GAP + (col as u32) * (layout.cell_w + GAP);
    let y = GAP + (row as u32) * (layout.cell_h + GAP);
    (x, y)
}

/// Height of a 16:9 frame of width `w`, rounded to the nearest pixel.
pub open spec fn frame_height_spec(w: nat) -> nat {
    (w * 9 + 8) / 16
}

pub fn frame_height_for(w: u32) -> (r: u32)
    ensures
        r == frame_height_spec(w as nat),
{
    ((w as u64 * 9 + 8) / 16) as u32
}

/// Frames of several videos at one time, to put side by side.
#[derive(Debug)]
pub struct ContactSheetRequest {
    pub videos: Vec<VideoItem>,
    pub time_ms: u64,
    pub dest: String,
    pub cell_frame_width: u32,
}

impl ContactSheetRequest {
    pub fn new(videos: Vec<VideoItem>, time_ms: u64, dest: String) -> (r: Self)
        ensures
            r.videos@ == videos@,
            r.time_ms == time_ms,
            r.dest == dest,
            r.cell_frame_width == DEFAULT_CELL_FRAME_W,
    {
        ContactSheetRequest { videos, time_ms, dest, cell_frame_width: DEFAULT_CELL_FRAME_W }
    }
}

/// What a sheet will look like: frame size and grid.
#[derive(Debug, Clone, Copy, PartialEq, Eq, Structural)]
pub struct SheetPlan {
    pub frame_w: u32,
    pub frame_h: u32,
    pub layout: GridLayout,
}

/// The plan of a sheet of `count` frames, each at least 160 pixels wide.
pub open spec fn plan_fits(count: nat, cell_frame_width: nat) -> bool {
    let w: nat = if cell_frame_width < 160 { 160 } else { cell_frame_width };
    layout_fits(count, w, frame_height_spec(w))
}

/// `p` is the plan of a sheet of `count` frames asked `cell_frame_width` wide: frames at
/// least 160 pixels wide and 16:9, in the grid of `count`, cells holding a header, the
/// frame and a footer, with gaps around and between the cells.
pub open spec fn sheet_plan_ok(p: SheetPlan, count: nat, cell_frame_width: u32) -> bool {
    &&& p.frame_w == (if cell_frame_width < 160 { 160 } else { cell_frame_width })
    &&& p.frame_h == frame_height_spec(p.frame_w as nat)
    &&& p.layout.rows == grid_spec(count).0 && p.layout.cols == grid_spec(count).1
    &&& p.layout.cell_w == p.frame_w
    &&& p.layout.cell_h == HEADER_H + p.frame_h + FOOTER_H
    &&& p.layout.sheet_w == p.layout.cols * p.layout.cell_w + (p.layout.cols + 1) * GAP
    &&& p.layout.sheet_h == p.layout.rows * p.layout.cell_h + (p.layout.rows + 1) * GAP
}

fn sheet_plan(count: usize, cell_frame_width: u32) -> (r: SheetPlan)
    requires
        1 <= count,
        plan_fits(count as nat, cell_frame_width as nat),
    ensures
        sheet_plan_ok(r, count as nat, cell_frame_width),
{
    let frame_w = if cell_frame_width < 160 { 160 } else { cell_frame_width };
    let frame_h = frame_height_for(frame_w);
    let layout = compute_layout(count, frame_w, frame_h);
    SheetPlan { frame_w, frame_h, layout }
}

/// Checks a video contact sheet: two to six videos; gives its plan.
pub fn plan_video_sheet(req: &ContactSheetRequest) -> (r: Result<SheetPlan, String>)
    requires
        2 <= req.videos@.len() <= 6 ==> plan_fits(req.videos@.len(), req.cell_frame_width as nat),
    ensures
        req.videos@.len() < 2 ==> (r matches Err(m) && m@ == "宫格导出至少需要 2 个视频"@),
        req.videos@.len() > 6 ==> (r matches Err(m) && m@ == "宫格导出最多支持 6 个视频"@),
        2 <= req.videos@.len() <= 6 ==> (r matches Ok(p) && sheet_plan_ok(p, req.videos@.len(), req.cell_frame_width)),
{
    let n = req.videos.len();
    if n < 2 {
        return Err(string_of("宫格导出至少需要 2 个视频"));
    }
    if n > 6 {
        return Err(string_of("宫格导出最多支持 6 个视频"));
    }
    Ok(sheet_plan(n, req.cell_frame_width))
}

/// Number of index pages for `n` screenshots.
pub open spec fn page_count(n: nat) -> nat {
    ((n as int + 35) / 36int) as nat
}

/// File name of index page `page_index` of `total_pages`: `<base>.png` for a single page,
/// else `<base>_<page number, three digits>.png`.
pub open spec fn index_page_name(base: Seq<char>, page_index: nat, total_pages: nat) -> Seq<char> {
    if total_pages <= 1 {
        base + ".png"@
    } else {
        base + "_"@ + zero_pad(decimal(page_index + 1), 3) + ".png"@
    }
}

pub fn index_page_path(output_dir: &String, base_name: &str, page_index: usize, total_pages: usize) -> (r: String)
    requires
        page_index < usize::MAX,
    ensures
        r@ == join_path(output_dir@, index_page_name(base_name@, page_index as nat, total_pages as nat)),
{
    let mut name: Vec<char> = Vec::new();
    push_str(&mut name, base_name);
    if total_pages <= 1 {
        push_str(&mut name, ".png");
    } else {
        push_str(&mut name, "_");
        push_decimal_padded(&mut name, (page_index + 1) as u64, 3);
        push_str(&mut name, ".png");
    }
    let n = string_from_chars(&name);
    crate::server::config::join_path_exec(output_dir, n.as_str())
}

/// One index page: which screenshots it holds and where it goes.
#[derive(Debug)]
pub struct IndexPage {
    pub first: usize,
    pub count: usize,
    pub dest: String,
    pub plan: SheetPlan,
}

/// Page `k` of the index of `n` screenshots: it starts at screenshot `36k`, holds up to 36,
/// has the page's file name, and the sheet plan of its screenshots.
pub open spec fn page_ok(page: IndexPage, k: int, n: nat, output_dir: Seq<char>, base: Seq<char>, cell_frame_width: u32) -> bool {
    &&& page.first == k * CONTACT_SHEET_PAGE_SIZE
    &&& page.count == (if n - k * CONTACT_SHEET_PAGE_SIZE < CONTACT_SHEET_PAGE_SIZE { n - k * CONTACT_SHEET_PAGE_SIZE } else { CONTACT_SHEET_PAGE_SIZE as int })
    &&& page.dest@ == join_path(output_dir, index_page_name(base, k as nat, page_count(n)))
    &&& sheet_plan_ok(page.plan, page.count as nat, cell_frame_width)
}

/// Splits `n` screenshots into index pages of at most 36, in order; none is an error.
pub fn plan_index_pages(n: usize, output_dir: &String, base_name: &str, cell_frame_width: u32) -> (r: Result<Vec<IndexPage>, String>)
    requires
        plan_fits(CONTACT_SHEET_PAGE_SIZE as nat, cell_frame_width as nat),
        forall|k: nat| 1 <= k <= CONTACT_SHEET_PAGE_SIZE ==> plan_fits(k, cell_frame_width as nat),
    ensures
        n == 0 ==> (r matches Err(m) && m@ == "没有可拼图的截图"@),
        n > 0 ==> (r matches Ok(pages) && {
            &&& pages@.len() == page_count(n as nat)
            &&& forall|k: int| 0 <= k < pages@.len() ==> page_ok(#[trigger] pages@[k], k, n as nat, output_dir@, base_name@, cell_frame_width)
        }),
{
    if n == 0 {
        return Err(string_of("没有可拼图的截图"));
    }
    let total = n / 36 + if n % 36 == 0 { 0 } else { 1 };
    assert(total == page_count(n as nat)) by (nonlinear_arith)
        requires total == n / 36 + if n % 36 == 0 { 0int } else { 1int };
    assert(total * 36 >= n && (total - 1) * 36 < n) by (nonlinear_arith)
        requires total == n / 36 + if n % 36 == 0 { 0int } else { 1int };
    let mut pages: Vec<IndexPage> = Vec::new();
    let mut p: usize = 0;
    while p < total
        invariant
            p <= total,
            total == page_count(n as nat),
            total * 36 >= n,
            (total - 1) * 36 < n,
            forall|k: nat| 1 <= k <= CONTACT_SHEET_PAGE_SIZE ==> plan_fits(k, cell_frame_width as nat),
            pages@.len() == p,
            forall|q: int| 0 <= q < p ==> page_ok(#[trigger] pages@[q], q, n as nat, output_dir@, base_name@, cell_frame_width),
        decreases total - p,
    {
        assert(p * 36 < n) by (nonlinear_arith)
            requires p < total, (total - 1) * 36 < n;
        let first = p * 36;
        let rest = n - first;
        let count = if rest < 36 { rest } else { 36 };
        let dest = index_page_path(output_dir, base_name, p, total);
        let plan = sheet_plan(count, cell_frame_width);
        let ghost before = pages@;
        let page = IndexPage { first, count, dest, plan };
        let ghost pg = page;
        pages.push(page);
        proof {
            assert(pages@ == before.push(pg));
            assert forall|q: int| 0 <= q < p + 1 implies page_ok(#[trigger] pages@[q], q, n as nat, output_dir@, base_name@, cell_frame_width) by {
                if q < p {
                    assert(pages@[q] == before[q]);
                } else {
                    assert(pages@[q] == pg);
                }
            }
        }
        p += 1;
    }
    Ok(pages)
}

/// `s` cut to `max_chars` characters, the last replaced by `…` when it is cut.
pub open spec fn truncate_label_spec(s: Seq<char>, max_chars: nat) -> Seq<char> {
    if s.len() <= max_chars {
        s
    } else {
        s.subrange(0, if max_chars >= 1 { max_chars - 1 } else { 0 }) + "…"@
    }
}

pub fn truncate_label(s: &str, max_chars: usize) -> (r: String)
    ensures
        r@ == truncate_label_spec(s@, max_chars as nat),
{
    let c = crate::text::chars_of(s);
    if c.len() <= max_chars {
        return string_of(s);
    }
    let keep = if max_chars >= 1 { max_chars - 1 } else { 0 };
    let mut out = crate::text::slice_vec(&c, 0, keep);
    push_str(&mut out, "…");
    string_from_chars(&out)
}


/// Where a contact sheet was written, its size in pixels, its grid and how many videos
/// it shows.
#[derive(Debug)]
pub struct ContactSheetResult {
    pub dest: String,
    pub width: u32,
    pub height: u32,
    pub rows: usize,
    pub cols: usize,
    pub video_count: usize,
}

impl ContactSheetResult {
    /// The result of writing the sheet of `req` planned as `plan`: its destination, the
    /// sheet's size, grid and number of videos.
    pub fn of_sheet(req: &ContactSheetRequest, plan: &SheetPlan) -> (r: Self)
        ensures
            r.dest@ == req.dest@,
            r.width == plan.layout.sheet_w,
            r.height == plan.layout.sheet_h,
            r.rows == plan.layout.rows,
            r.cols == plan.layout.cols,
            r.video_count == req.videos@.len(),
    {
        ContactSheetResult {
            dest: req.dest.clone(),
            width: plan.layout.sheet_w,
            height: plan.layout.sheet_h,
            rows: plan.layout.rows,
            cols: plan.layout.cols,
            video_count: req.videos.len(),
        }
    }
}

} // verus!
