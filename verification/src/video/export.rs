//! Exports of a reviewed batch: which columns go out, which videos, and how markers,
//! segments and the HTML report are written. Reading the batch and writing the files are
//! done by the caller.
use vstd::prelude::*;

use crate::text::{chars_of, chars_of_string, decimal, push_all, push_decimal, push_str, string_from_chars, string_of};
use crate::video::domain::{MarkerKind, VideoItem};
use crate::video::services::{ms_to_timestamp, timestamp_spec, VideoMarker, VideoSegment};

verus! {

/// One column of an export: its key, its heading and whether it is written.
#[derive(Debug)]
pub struct VideoExportColumn {
    pub key: String,
    pub label: String,
    pub enabled: bool,
}

/// The columns of an export, in order.
#[derive(Debug)]
pub struct VideoExportSchema {
    pub columns: Vec<VideoExportColumn>,
}

/// The keys of the default export, in order; each column is headed by its key.
pub open spec fn default_export_keys() -> Seq<Seq<char>> {
    seq![
        "file_path"@, "status"@, "remark"@, "duration"@, "resolution"@, "fps"@, "codec"@,
        "offset_ms"@, "tags"@, "markers"@, "marker_details"@, "segments"@, "segment_details"@,
    ]
}

/// The keys of the enabled columns, in order.
pub open spec fn enabled_keys_spec(columns: Seq<VideoExportColumn>) -> Seq<Seq<char>>
    decreases columns.len(),
{
    if columns.len() == 0 {
        Seq::empty()
    } else {
        let rest = enabled_keys_spec(columns.drop_last());
        if columns.last().enabled {
            rest.push(columns.last().key@)
        } else {
            rest
        }
    }
}

/// `key` is one of `keys`.
pub open spec fn key_listed(keys: Seq<String>, key: Seq<char>) -> bool {
    exists|j: int| 0 <= j < keys.len() && #[trigger] keys[j]@ == key
}

fn listed(keys: &Vec<String>, key: &String) -> (r: bool)
    ensures
        r == key_listed(keys@, key@),
{
    let mut j: usize = 0;
    while j < keys.len()
        invariant
            j <= keys@.len(),
            forall|i: int| 0 <= i < j ==> #[trigger] keys@[i]@ != key@,
        decreases keys@.len() - j,
    {
        if keys[j] == *key {
            return true;
        }
        j += 1;
    }
    false
}

fn column_named(key: &str) -> (r: VideoExportColumn)
    ensures
        r.key@ == key@,
        r.label@ == key@,
        r.enabled,
{
    VideoExportColumn { key: string_of(key), label: string_of(key), enabled: true }
}

impl VideoExportSchema {
    /// Every column, each headed by its key and enabled.
    pub fn default_schema() -> (r: Self)
        ensures
            r.columns@.len() == default_export_keys().len(),
            forall|i: int| 0 <= i < r.columns@.len() ==> {
                &&& #[trigger] r.columns@[i].key@ == default_export_keys()[i]
                &&& r.columns@[i].label@ == default_export_keys()[i]
                &&& r.columns@[i].enabled
            },
    {
        let mut columns: Vec<VideoExportColumn> = Vec::new();
        columns.push(column_named("file_path"));
        columns.push(column_named("status"));
        columns.push(column_named("remark"));
        columns.push(column_named("duration"));
        columns.push(column_named("resolution"));
        columns.push(column_named("fps"));
        columns.push(column_named("codec"));
        columns.push(column_named("offset_ms"));
        columns.push(column_named("tags"));
        columns.push(column_named("markers"));
        columns.push(column_named("marker_details"));
        columns.push(column_named("segments"));
        columns.push(column_named("segment_details"));
        VideoExportSchema { columns }
    }

    /// With a non-empty `keys`, exactly the columns whose key is listed are enabled; with
    /// an empty one, nothing changes.
    pub fn with_enabled_keys(self, keys: &Vec<String>) -> (r: Self)
        ensures
            r.columns@.len() == self.columns@.len(),
            forall|i: int| 0 <= i < r.columns@.len() ==> {
                &&& (#[trigger] r.columns@[i]).key == self.columns@[i].key
                &&& r.columns@[i].label == self.columns@[i].label
                &&& r.columns@[i].enabled == if keys@.len() == 0 {
                    self.columns@[i].enabled
                } else {
                    key_listed(keys@, self.columns@[i].key@)
                }
            },
    {
        if keys.len() == 0 {
            return self;
        }
        let ghost orig = self.columns@;
        let mut out: Vec<VideoExportColumn> = Vec::new();
        let mut cols = self.columns;
        let mut i: usize = 0;
        let n = cols.len();
        while i < n
            invariant
                n == orig.len(),
                cols@ == orig,
                i <= n,
                keys@.len() > 0,
                out@.len() == i,
                forall|k: int| 0 <= k < i ==> {
                    &&& (#[trigger] out@[k]).key == orig[k].key
                    &&& out@[k].label == orig[k].label
                    &&& out@[k].enabled == key_listed(keys@, orig[k].key@)
                },
            decreases n - i,
        {
            let on = listed(keys, &cols[i].key);
            out.push(VideoExportColumn { key: cols[i].key.clone(), label: cols[i].label.clone(), enabled: on });
            i += 1;
        }
        VideoExportSchema { columns: out }
    }

    /// The keys of the enabled columns, in order.
    pub fn enabled_keys(&self) -> (r: Vec<String>)
        ensures
            r@.map_values(|k: String| k@) == enabled_keys_spec(self.columns@),
    {
        let mut out: Vec<String> = Vec::new();
        let mut i: usize = 0;
        while i < self.columns.len()
            invariant
                i <= self.columns@.len(),
                out@.map_values(|k: String| k@) == enabled_keys_spec(self.columns@.subrange(0, i as int)),
            decreases self.columns@.len() - i,
        {
            proof {
                assert(self.columns@.subrange(0, i + 1).drop_last() =~= self.columns@.subrange(0, i as int));
            }
            if self.columns[i].enabled {
                let ghost before = out@;
                out.push(self.columns[i].key.clone());
                proof {
                    assert(out@.map_values(|k: String| k@) =~= before.map_values(|k: String| k@).push(self.columns@[i as int].key@));
                }
            }
            i += 1;
        }
        proof {
            assert(self.columns@.subrange(0, self.columns@.len() as int) =~= self.columns@);
        }
        out
    }
}

impl Default for VideoExportSchema {
    fn default() -> (r: Self)
        ensures
            r.columns@.len() == default_export_keys().len(),
            forall|i: int| 0 <= i < r.columns@.len() ==> {
                &&& #[trigger] r.columns@[i].key@ == default_export_keys()[i]
                &&& r.columns@[i].label@ == default_export_keys()[i]
                &&& r.columns@[i].enabled
            },
    {
        Self::default_schema()
    }
}

/// What to export of a batch, where, and which videos when only some are selected.
#[derive(Debug)]
pub struct VideoExportRequest {
    pub batch_id: i64,
    pub dest: String,
    pub selected_ids: Option<Vec<i64>>,
    pub schema: VideoExportSchema,
}

impl VideoExportRequest {
    /// An export of every video of the batch with the default columns.
    pub fn new(batch_id: i64, dest: String) -> (r: Self)
        ensures
            r.batch_id == batch_id,
            r.dest == dest,
            r.selected_ids is None,
            r.schema.columns@.len() == default_export_keys().len(),
            forall|i: int| 0 <= i < r.schema.columns@.len() ==> {
                &&& #[trigger] r.schema.columns@[i].key@ == default_export_keys()[i]
                &&& r.schema.columns@[i].enabled
            },
    {
        VideoExportRequest { batch_id, dest, selected_ids: None, schema: VideoExportSchema::default_schema() }
    }

    /// The same export, of the videos with the given ids only.
    pub fn selected(self, ids: Vec<i64>) -> (r: Self)
        ensures
            r.batch_id == self.batch_id,
            r.dest == self.dest,
            r.schema == self.schema,
            r.selected_ids == Some(ids),
    {
        VideoExportRequest { selected_ids: Some(ids), ..self }
    }
}

/// How many rows an export wrote, and where.
#[derive(Debug)]
pub struct VideoExportResult {
    pub row_count: usize,
    pub dest: String,
}

/// One exported row: the cells of a video, by column key.
#[derive(Debug)]
pub struct VideoExportRow {
    pub video_id: i64,
    pub cells: Vec<(String, String)>,
}

/// Record of a contact sheet exported with a batch.
#[derive(Debug)]
pub struct ContactSheetMeta {
    pub exported_at: String,
    pub image_path: String,
    pub width: u32,
    pub height: u32,
    pub rows: usize,
    pub cols: usize,
    pub time_ms: u64,
    pub video_ids: Vec<i64>,
}

/// The videos of `videos` that the selection keeps, in order: all when nothing is selected.
pub open spec fn selected_videos(videos: Seq<VideoItem>, selected: Option<Seq<i64>>) -> Seq<VideoItem> {
    match selected {
        Some(ids) => videos.filter(|v: VideoItem| ids.contains(v.id)),
        None => videos,
    }
}

pub fn retain_selected(videos: Vec<VideoItem>, selected: &Option<Vec<i64>>) -> (r: Vec<VideoItem>)
    ensures
        r@ == selected_videos(videos@, match selected {
            Some(ids) => Some(ids@),
            None => None,
        }),
{
    let ids = match selected {
        Some(ids) => ids,
        None => return videos,
    };
    let ghost pred = |v: VideoItem| ids@.contains(v.id);
    let mut out: Vec<VideoItem> = Vec::new();
    let mut i: usize = 0;
    while i < videos.len()
        invariant
            i <= videos@.len(),
            pred == (|v: VideoItem| ids@.contains(v.id)),
            out@ == videos@.subrange(0, i as int).filter(pred),
        decreases videos@.len() - i,
    {
        proof {
            assert(videos@.subrange(0, i + 1).drop_last() =~= videos@.subrange(0, i as int));
            reveal_with_fuel(Seq::filter, 1);
        }
        let mut found = false;
        let mut j: usize = 0;
        while j < ids.len()
            invariant
                j <= ids@.len(),
                i < videos@.len(),
                found == exists|k: int| 0 <= k < j && ids@[k] == videos@[i as int].id,
            decreases ids@.len() - j,
        {
            if ids[j] == videos[i].id {
                found = true;
            }
            j += 1;
        }
        if found {
            out.push(videos[i].clone());
        }
        i += 1;
    }
    proof {
        assert(videos@.subrange(0, videos@.len() as int) =~= videos@);
    }
    out
}

/// `parts` joined by `sep`.
pub open spec fn joined(parts: Seq<Seq<char>>, sep: Seq<char>) -> Seq<char>
    decreases parts.len(),
{
    if parts.len() == 0 {
        Seq::empty()
    } else if parts.len() == 1 {
        parts[0]
    } else {
        joined(parts.drop_last(), sep) + sep + parts.last()
    }
}

/// `<kind>@<time>` for a marker.
pub open spec fn marker_text(m: VideoMarker) -> Seq<char> {
    m.kind.label_spec() + "@"@ + timestamp_spec(m.time_ms as nat)
}

/// `<kind>@<time> sev=<severity> <text>` for a marker.
pub open spec fn marker_detail_text(m: VideoMarker) -> Seq<char> {
    marker_text(m) + " sev="@ + decimal(m.severity as nat) + " "@ + m.text@
}

/// `[<start>-<end>]` for a segment.
pub open spec fn segment_text(s: VideoSegment) -> Seq<char> {
    "["@ + timestamp_spec(s.start_ms as nat) + "-"@ + timestamp_spec(s.end_ms as nat) + "]"@
}

fn marker_chars(m: &VideoMarker, details: bool) -> (r: Vec<char>)
    ensures
        r@ == if details { marker_detail_text(*m) } else { marker_text(*m) },
{
    let mut out: Vec<char> = Vec::new();
    push_str(&mut out, m.kind.label());
    push_str(&mut out, "@");
    let ts = ms_to_timestamp(m.time_ms);
    push_all(&mut out, &chars_of_string(&ts));
    if details {
        push_str(&mut out, " sev=");
        push_decimal(&mut out, m.severity as u64);
        push_str(&mut out, " ");
        push_all(&mut out, &chars_of_string(&m.text));
    }
    out
}

/// The markers, each as `marker_text` (or `marker_detail_text` with `details`), joined
/// by `; `.
pub fn format_markers(markers: &Vec<VideoMarker>, details: bool) -> (r: String)
    ensures
        r@ == joined(markers@.map_values(|m: VideoMarker| if details { marker_detail_text(m) } else { marker_text(m) }), "; "@),
{
    let ghost f = |m: VideoMarker| if details { marker_detail_text(m) } else { marker_text(m) };
    let mut out: Vec<char> = Vec::new();
    let mut i: usize = 0;
    while i < markers.len()
        invariant
            i <= markers@.len(),
            f == (|m: VideoMarker| if details { marker_detail_text(m) } else { marker_text(m) }),
            out@ == joined(markers@.subrange(0, i as int).map_values(f), "; "@),
        decreases markers@.len() - i,
    {
        proof {
            let a = markers@.subrange(0, i + 1).map_values(f);
            assert(a.drop_last() =~= markers@.subrange(0, i as int).map_values(f));
            assert(a.last() == f(markers@[i as int]));
            if i == 0 {
                assert(a.len() == 1);
            }
        }
        if i > 0 {
            push_str(&mut out, "; ");
        }
        let part = marker_chars(&markers[i], details);
        push_all(&mut out, &part);
        i += 1;
    }
    proof {
        assert(markers@.subrange(0, markers@.len() as int) =~= markers@);
    }
    string_from_chars(&out)
}

/// The segments, each as `segment_text`, joined by `; `.
pub fn format_segments(segments: &Vec<VideoSegment>) -> (r: String)
    ensures
        r@ == joined(segments@.map_values(|s: VideoSegment| segment_text(s)), "; "@),
{
    let ghost f = |s: VideoSegment| segment_text(s);
    let mut out: Vec<char> = Vec::new();
    let mut i: usize = 0;
    while i < segments.len()
        invariant
            i <= segments@.len(),
            f == (|s: VideoSegment| segment_text(s)),
            out@ == joined(segments@.subrange(0, i as int).map_values(f), "; "@),
        decreases segments@.len() - i,
    {
        proof {
            let a = segments@.subrange(0, i + 1).map_values(f);
            assert(a.drop_last() =~= segments@.subrange(0, i as int).map_values(f));
            assert(a.last() == f(segments@[i as int]));
            if i == 0 {
                assert(a.len() == 1);
            }
        }
        if i > 0 {
            push_str(&mut out, "; ");
        }
        push_str(&mut out, "[");
        let a = ms_to_timestamp(segments[i].start_ms);
        push_all(&mut out, &chars_of_string(&a));
        push_str(&mut out, "-");
        let b = ms_to_timestamp(segments[i].end_ms);
        push_all(&mut out, &chars_of_string(&b));
        push_str(&mut out, "]");
        i += 1;
    }
    proof {
        assert(segments@.subrange(0, segments@.len() as int) =~= segments@);
    }
    string_from_chars(&out)
}

/// A character as it is written in HTML text: `&`, `<`, `>` and `"` become entities.
pub open spec fn html_char(c: char) -> Seq<char> {
    if c == '&' {
        "&amp;"@
    } else if c == '<' {
        "&lt;"@
    } else if c == '>' {
        "&gt;"@
    } else if c == '"' {
        "&quot;"@
    } else {
        seq![c]
    }
}

/// Text escaped for HTML, character by character.
pub open spec fn html_escaped(s: Seq<char>) -> Seq<char>
    decreases s.len(),
{
    if s.len() == 0 {
        Seq::empty()
    } else {
        html_escaped(s.drop_last()) + html_char(s.last())
    }
}

fn push_escaped(out: &mut Vec<char>, s: &Vec<char>)
    ensures
        final(out)@ == old(out)@ + html_escaped(s@),
{
    let ghost start = out@;
    let mut i: usize = 0;
    while i < s.len()
        invariant
            i <= s@.len(),
            out@ == start + html_escaped(s@.subrange(0, i as int)),
        decreases s@.len() - i,
    {
        proof {
            assert(s@.subrange(0, i + 1).drop_last() =~= s@.subrange(0, i as int));
        }
        let c = s[i];
        if c == '&' {
            push_str(out, "&amp;");
        } else if c == '<' {
            push_str(out, "&lt;");
        } else if c == '>' {
            push_str(out, "&gt;");
        } else if c == '"' {
            push_str(out, "&quot;");
        } else {
            out.push(c);
        }
        proof {
            assert(out@ =~= start + html_escaped(s@.subrange(0, i + 1)));
        }
        i += 1;
    }
    proof {
        assert(s@.subrange(0, s@.len() as int) =~= s@);
    }
}

pub fn escape_html(raw: &str) -> (r: String)
    ensures
        r@ == html_escaped(raw@),
{
    let mut out: Vec<char> = Vec::new();
    push_escaped(&mut out, &chars_of(raw));
    string_from_chars(&out)
}

/// The value of the first cell with key `key`, or the empty text.
pub open spec fn cell_value(cells: Seq<(String, String)>, key: Seq<char>) -> Seq<char>
    decreases cells.len(),
{
    if cells.len() == 0 {
        Seq::empty()
    } else if cells[0].0@ == key {
        cells[0].1@
    } else {
        cell_value(cells.drop_first(), key)
    }
}

pub fn cell_of(row: &VideoExportRow, key: &String) -> (r: String)
    ensures
        r@ == cell_value(row.cells@, key@),
{
    let mut i: usize = 0;
    proof {
        assert(row.cells@.subrange(0, row.cells@.len() as int) =~= row.cells@);
    }
    while i < row.cells.len()
        invariant
            i <= row.cells@.len(),
            cell_value(row.cells@, key@) == cell_value(row.cells@.subrange(i as int, row.cells@.len() as int), key@),
        decreases row.cells@.len() - i,
    {
        let ghost rest = row.cells@.subrange(i as int, row.cells@.len() as int);
        proof {
            assert(rest[0] == row.cells@[i as int]);
            assert(rest.drop_first() =~= row.cells@.subrange(i + 1, row.cells@.len() as int));
        }
        if row.cells[i].0 == *key {
            return row.cells[i].1.clone();
        }
        i += 1;
    }
    proof {
        assert(row.cells@.subrange(i as int, row.cells@.len() as int).len() == 0);
        reveal_strlit("");
    }
    string_of("")
}

/// The CSV record of a row: its cell for each key, in order.
pub fn csv_record(row: &VideoExportRow, keys: &Vec<String>) -> (r: Vec<String>)
    ensures
        r@.len() == keys@.len(),
        forall|i: int| 0 <= i < keys@.len() ==> #[trigger] r@[i]@ == cell_value(row.cells@, keys@[i]@),
{
    let mut out: Vec<String> = Vec::new();
    let mut i: usize = 0;
    while i < keys.len()
        invariant
            i <= keys@.len(),
            out@.len() == i,
            forall|k: int| 0 <= k < i ==> #[trigger] out@[k]@ == cell_value(row.cells@, keys@[k]@),
        decreases keys@.len() - i,
    {
        out.push(cell_of(row, &keys[i]));
        i += 1;
    }
    out
}

/// `<th>key</th>` for each key, escaped.
pub open spec fn header_cells(keys: Seq<String>) -> Seq<char>
    decreases keys.len(),
{
    if keys.len() == 0 {
        Seq::empty()
    } else {
        header_cells(keys.drop_last()) + "<th>"@ + html_escaped(keys.last()@) + "</th>"@
    }
}

/// `<td>value</td>` for each key's cell of a row, escaped.
pub open spec fn row_cells(row: VideoExportRow, keys: Seq<String>) -> Seq<char>
    decreases keys.len(),
{
    if keys.len() == 0 {
        Seq::empty()
    } else {
        row_cells(row, keys.drop_last()) + "<td>"@ + html_escaped(cell_value(row.cells@, keys.last()@)) + "</td>"@
    }
}

/// The table rows of the report.
pub open spec fn body_rows(rows: Seq<VideoExportRow>, keys: Seq<String>) -> Seq<char>
    decreases rows.len(),
{
    if rows.len() == 0 {
        Seq::empty()
    } else {
        body_rows(rows.drop_last(), keys) + "<tr>"@ + row_cells(rows.last(), keys) + "</tr>"@
    }
}

pub open spec fn report_head() -> Seq<char> {
    "<!doctype html><html><head><meta charset=\"utf-8\"><title>ImgForge Video Report</title>"@
        + "<style>body{font-family:-apple-system,BlinkMacSystemFont,sans-serif;margin:24px}table{border-collapse:collapse;width:100%}td,th{border:1px solid #ddd;padding:6px;font-size:12px}th{background:#f4f4f4}.muted{color:#666}</style>"@
        + "</head><body><h1>ImgForge 视频评审报告</h1>"@
}

/// The HTML report of `rows` over the columns `keys`.
pub open spec fn html_report_spec(rows: Seq<VideoExportRow>, keys: Seq<String>) -> Seq<char> {
    report_head() + "<p class=\"muted\">视频数："@ + decimal(rows.len()) + "</p>"@ + "<table><thead><tr>"@
        + header_cells(keys) + "</tr></thead><tbody>"@ + body_rows(rows, keys)
        + "</tbody></table><p class=\"muted\">Generated by ImgForge</p></body></html>"@
}

fn push_row_cells(out: &mut Vec<char>, row: &VideoExportRow, keys: &Vec<String>)
    ensures
        final(out)@ == old(out)@ + row_cells(*row, keys@),
{
    let ghost start = out@;
    let mut i: usize = 0;
    while i < keys.len()
        invariant
            i <= keys@.len(),
            out@ == start + row_cells(*row, keys@.subrange(0, i as int)),
        decreases keys@.len() - i,
    {
        proof {
            assert(keys@.subrange(0, i + 1).drop_last() =~= keys@.subrange(0, i as int));
        }
        push_str(out, "<td>");
        let v = cell_of(row, &keys[i]);
        push_escaped(out, &chars_of_string(&v));
        push_str(out, "</td>");
        proof {
            assert(out@ =~= start + row_cells(*row, keys@.subrange(0, i + 1)));
        }
        i += 1;
    }
    proof {
        assert(keys@.subrange(0, keys@.len() as int) =~= keys@);
    }
}

/// The HTML report of an export: a heading with the number of videos, then a table with
/// a heading cell per key and a row per video.
pub fn html_report(rows: &Vec<VideoExportRow>, keys: &Vec<String>) -> (r: String)
    ensures
        r@ == html_report_spec(rows@, keys@),
{
    let mut out: Vec<char> = Vec::new();
    push_str(&mut out, "<!doctype html><html><head><meta charset=\"utf-8\"><title>ImgForge Video Report</title>");
    push_str(&mut out, "<style>body{font-family:-apple-system,BlinkMacSystemFont,sans-serif;margin:24px}table{border-collapse:collapse;width:100%}td,th{border:1px solid #ddd;padding:6px;font-size:12px}th{background:#f4f4f4}.muted{color:#666}</style>");
    push_str(&mut out, "</head><body><h1>ImgForge 视频评审报告</h1>");
    push_str(&mut out, "<p class=\"muted\">视频数：");
    push_decimal(&mut out, rows.len() as u64);
    push_str(&mut out, "</p>");
    push_str(&mut out, "<table><thead><tr>");
    let ghost h0 = out@;
    let mut i: usize = 0;
    while i < keys.len()
        invariant
            i <= keys@.len(),
            out@ == h0 + header_cells(keys@.subrange(0, i as int)),
        decreases keys@.len() - i,
    {
        proof {
            assert(keys@.subrange(0, i + 1).drop_last() =~= keys@.subrange(0, i as int));
        }
        push_str(&mut out, "<th>");
        push_escaped(&mut out, &chars_of_string(&keys[i]));
        push_str(&mut out, "</th>");
        proof {
            assert(out@ =~= h0 + header_cells(keys@.subrange(0, i + 1)));
        }
        i += 1;
    }
    proof {
        assert(keys@.subrange(0, keys@.len() as int) =~= keys@);
    }
    push_str(&mut out, "</tr></thead><tbody>");
    let ghost b0 = out@;
    let mut r: usize = 0;
    while r < rows.len()
        invariant
            r <= rows@.len(),
            out@ == b0 + body_rows(rows@.subrange(0, r as int), keys@),
        decreases rows@.len() - r,
    {
        proof {
            assert(rows@.subrange(0, r + 1).drop_last() =~= rows@.subrange(0, r as int));
        }
        push_str(&mut out, "<tr>");
        push_row_cells(&mut out, &rows[r], keys);
        push_str(&mut out, "</tr>");
        proof {
            assert(out@ =~= b0 + body_rows(rows@.subrange(0, r + 1), keys@));
        }
        r += 1;
    }
    proof {
        assert(rows@.subrange(0, rows@.len() as int) =~= rows@);
    }
    push_str(&mut out, "</tbody></table><p class=\"muted\">Generated by ImgForge</p></body></html>");
    assert(out@ =~= html_report_spec(rows@, keys@));
    string_from_chars(&out)
}

/// Escaped text holds no `<`, `>` or `"`: it cannot open or close markup or an attribute.
pub proof fn law_escaped_text_has_no_markup(s: Seq<char>)
    ensures
        !html_escaped(s).contains('<'),
        !html_escaped(s).contains('>'),
        !html_escaped(s).contains('"'),
    decreases s.len(),
{
    if s.len() > 0 {
        law_escaped_text_has_no_markup(s.drop_last());
        let head = html_escaped(s.drop_last());
        let tail = html_char(s.last());
        reveal_strlit("&amp;");
        reveal_strlit("&lt;");
        reveal_strlit("&gt;");
        reveal_strlit("&quot;");
        assert(!tail.contains('<') && !tail.contains('>') && !tail.contains('"'));
        assert forall|c: char| (head + tail).contains(c) implies head.contains(c) || tail.contains(c) by {
            let i = choose|i: int| 0 <= i < (head + tail).len() && (head + tail)[i] == c;
            if i < head.len() {
                assert(head[i] == c);
            } else {
                assert(tail[i - head.len()] == c);
            }
        }
    }
}

} // verus!
