//! Video review records: review verdicts, markers, video items, and the search language
//! that filters them (`status:`, `duration>`, `duration<`, `text:` and free text).
use vstd::prelude::*;

use crate::paths::{file_name, file_name_of};
use crate::text::{
    all_digits, chars_of, chars_of_string, contains, contains_exec, decimal, digits_value, eq_str,
    eq_vec, lower, lower_vec, parse_unsigned, parse_unsigned_vec, push_all, push_decimal, push_str,
    slice_vec, split_ws, split_ws_vec, starts_with, starts_with_exec, string_from_chars, string_of,
    trim, trim_vec, views, zero_pad, push_decimal_padded, occurs_at, split_ws_from, is_white_space,
};

verus! {

/// Review verdict of an image or a video.
#[derive(Debug, Clone, Copy, PartialEq, Eq, Structural)]
pub enum ReviewStatus {
    Pending,
    Approved,
    Rejected,
    NeedsFix,
}

/// Kind of a time marker.
#[derive(Debug, Clone, Copy, PartialEq, Eq, Structural)]
pub enum MarkerKind {
    Issue,
    Note,
    Sync,
}

impl MarkerKind {
    pub open spec fn label_spec(self) -> Seq<char> {
        match self {
            MarkerKind::Issue => "问题"@,
            MarkerKind::Note => "备注"@,
            MarkerKind::Sync => "同步点"@,
        }
    }

    pub open spec fn sql_spec(self) -> Seq<char> {
        match self {
            MarkerKind::Issue => "issue"@,
            MarkerKind::Note => "note"@,
            MarkerKind::Sync => "sync"@,
        }
    }

    /// The name shown in the interface.
    pub fn label(self) -> (r: &'static str)
        ensures
            r@ == self.label_spec(),
    {
        match self {
            MarkerKind::Issue => "问题",
            MarkerKind::Note => "备注",
            MarkerKind::Sync => "同步点",
        }
    }

    /// The name stored in the database.
    pub fn to_sql(self) -> (r: &'static str)
        ensures
            r@ == self.sql_spec(),
    {
        match self {
            MarkerKind::Issue => "issue",
            MarkerKind::Note => "note",
            MarkerKind::Sync => "sync",
        }
    }

    /// The kind stored under a database name.
    pub fn from_sql(s: &str) -> (r: Option<MarkerKind>)
        ensures
            r matches Some(k) ==> k.sql_spec() == s@,
            r is None ==> s@ != "issue"@ && s@ != "note"@ && s@ != "sync"@,
    {
        let c = chars_of(s);
        if eq_str(&c, "issue") {
            Some(MarkerKind::Issue)
        } else if eq_str(&c, "note") {
            Some(MarkerKind::Note)
        } else if eq_str(&c, "sync") {
            Some(MarkerKind::Sync)
        } else {
            None
        }
    }
}

/// Different kinds have different database names, so reading a name back gives the kind
/// that wrote it.
pub proof fn law_marker_kind_roundtrip(a: MarkerKind, b: MarkerKind)
    ensures
        a.sql_spec() == b.sql_spec() ==> a == b,
{
    reveal_strlit("issue");
    reveal_strlit("note");
    reveal_strlit("sync");
    match (a, b) {
        (MarkerKind::Issue, MarkerKind::Note) => assert(a.sql_spec()[0] != b.sql_spec()[0]),
        (MarkerKind::Note, MarkerKind::Issue) => assert(a.sql_spec()[0] != b.sql_spec()[0]),
        (MarkerKind::Issue, MarkerKind::Sync) => assert(a.sql_spec()[0] != b.sql_spec()[0]),
        (MarkerKind::Sync, MarkerKind::Issue) => assert(a.sql_spec()[0] != b.sql_spec()[0]),
        (MarkerKind::Note, MarkerKind::Sync) => assert(a.sql_spec()[0] != b.sql_spec()[0]),
        (MarkerKind::Sync, MarkerKind::Note) => assert(a.sql_spec()[0] != b.sql_spec()[0]),
        _ => {},
    }
}

/// Stream properties of a video.
#[derive(Debug)]
pub struct VideoMetadata {
    pub duration_ms: u64,
    pub width: u32,
    pub height: u32,
    pub video_codec: String,
    pub audio_codec: Option<String>,
    pub bitrate_kbps: Option<u32>,
}

/// `HH:MM:SS` for durations of an hour or more, else `MM:SS`, in whole seconds.
pub open spec fn duration_label_spec(duration_ms: u64) -> Seq<char> {
    let total = duration_ms / 1000;
    let h = total / 3600;
    let m = (total % 3600) / 60;
    let s = total % 60;
    if h > 0 {
        zero_pad(decimal(h as nat), 2) + ":"@ + zero_pad(decimal(m as nat), 2) + ":"@ + zero_pad(decimal(s as nat), 2)
    } else {
        zero_pad(decimal(m as nat), 2) + ":"@ + zero_pad(decimal(s as nat), 2)
    }
}

impl VideoMetadata {
    pub fn duration_label(&self) -> (r: String)
        ensures
            r@ == duration_label_spec(self.duration_ms),
    {
        let total = self.duration_ms / 1000;
        let h = total / 3600;
        let m = (total % 3600) / 60;
        let s = total % 60;
        let mut out: Vec<char> = Vec::new();
        if h > 0 {
            push_decimal_padded(&mut out, h, 2);
            push_str(&mut out, ":");
        }
        push_decimal_padded(&mut out, m, 2);
        push_str(&mut out, ":");
        push_decimal_padded(&mut out, s, 2);
        string_from_chars(&out)
    }

    /// `<width>×<height>` when both are known, else `—`.
    pub fn resolution_label(&self) -> (r: String)
        ensures
            r@ == (if self.width > 0 && self.height > 0 {
                decimal(self.width as nat) + "×"@ + decimal(self.height as nat)
            } else {
                "—"@
            }),
    {
        if self.width > 0 && self.height > 0 {
            let mut out: Vec<char> = Vec::new();
            push_decimal(&mut out, self.width as u64);
            push_str(&mut out, "×");
            push_decimal(&mut out, self.height as u64);
            string_from_chars(&out)
        } else {
            string_of("—")
        }
    }
}

/// A tag that review videos can carry. `created_at` is UNIX seconds.
#[derive(Debug)]
pub struct VideoTag {
    pub id: i64,
    pub name: String,
    pub color: [u8; 4],
    pub created_at: i64,
}

/// Colour `k` (0 to 7) of the tag palette, RGBA: blue, pink, green, orange, purple, light
/// blue, yellow and grey.
pub open spec fn palette_entry(k: int) -> Seq<u8> {
    if k == 0 { seq![0u8, 122, 255, 255] }
    else if k == 1 { seq![255u8, 45, 85, 255] }
    else if k == 2 { seq![52u8, 199, 89, 255] }
    else if k == 3 { seq![255u8, 149, 0, 255] }
    else if k == 4 { seq![175u8, 82, 222, 255] }
    else if k == 5 { seq![90u8, 200, 250, 255] }
    else if k == 6 { seq![255u8, 204, 0, 255] }
    else { seq![142u8, 142, 147, 255] }
}

impl VideoTag {
    /// The colour that the `i`-th new tag takes: the palette's colours in turn.
    pub fn palette_color(i: usize) -> (r: [u8; 4])
        ensures
            r@ == palette_entry((i % 8) as int),
    {
        let r: [u8; 4] = match i % 8 {
            0 => [0, 122, 255, 255],
            1 => [255, 45, 85, 255],
            2 => [52, 199, 89, 255],
            3 => [255, 149, 0, 255],
            4 => [175, 82, 222, 255],
            5 => [90, 200, 250, 255],
            6 => [255, 204, 0, 255],
            _ => [142, 142, 147, 255],
        };
        assert(r@ =~= palette_entry((i % 8) as int));
        r
    }
}

/// A video of a review batch. Times are UNIX seconds.
#[derive(Debug)]
pub struct VideoItem {
    pub id: i64,
    pub batch_id: i64,
    pub file_path: String,
    pub status: ReviewStatus,
    pub remark: Option<String>,
    pub thumbnail_path: Option<String>,
    pub duration_ms: u64,
    pub width: u32,
    pub height: u32,
    pub video_codec: String,
    pub audio_codec: Option<String>,
    pub bitrate_kbps: Option<u32>,
    pub device_model: Option<String>,
    pub offset_ms: i64,
    pub created_at: i64,
    pub updated_at: i64,
    pub deleted_at: Option<i64>,
}

impl VideoItem {
    pub fn metadata(&self) -> (r: VideoMetadata)
        ensures
            r.duration_ms == self.duration_ms,
            r.width == self.width,
            r.height == self.height,
            r.video_codec == self.video_codec,
            r.audio_codec == self.audio_codec,
            r.bitrate_kbps == self.bitrate_kbps,
    {
        VideoMetadata {
            duration_ms: self.duration_ms,
            width: self.width,
            height: self.height,
            video_codec: self.video_codec.clone(),
            audio_codec: crate::server::models::clone_opt_string(&self.audio_codec),
            bitrate_kbps: self.bitrate_kbps,
        }
    }

    pub fn is_deleted(&self) -> (r: bool)
        ensures
            r == self.deleted_at is Some,
    {
        self.deleted_at.is_some()
    }

    /// The time in this video that global time `global_ms` shows: shifted by the video's
    /// offset, not before its start.
    pub fn effective_time_ms(&self, global_ms: u64) -> (r: u64)
        requires
            global_ms <= i64::MAX,
            global_ms + self.offset_ms <= i64::MAX,
        ensures
            r == effective_time_spec(global_ms, self.offset_ms),
    {
        let shifted = global_ms as i64 + self.offset_ms;
        if shifted < 0 { 0 } else { shifted as u64 }
    }
}

/// The local time of a video with offset `offset_ms` at global time `global_ms`, not before
/// its start.
pub open spec fn effective_time_spec(global_ms: u64, offset_ms: i64) -> u64 {
    if global_ms + offset_ms < 0 { 0 } else { (global_ms + offset_ms) as u64 }
}

/// The verdict that a word of the search language names.
pub open spec fn status_from_text_spec(s: Seq<char>) -> Option<ReviewStatus> {
    if s == "待修正"@ || s == "needs_fix"@ || s == "need_fix"@ {
        Some(ReviewStatus::NeedsFix)
    } else if s == "驳回"@ || s == "rejected"@ {
        Some(ReviewStatus::Rejected)
    } else if s == "通过"@ || s == "approved"@ || s == "passed"@ {
        Some(ReviewStatus::Approved)
    } else if s == "未评审"@ || s == "pending"@ {
        Some(ReviewStatus::Pending)
    } else {
        None
    }
}

pub fn status_from_text(input: &str) -> (r: Option<ReviewStatus>)
    ensures
        r == status_from_text_spec(input@),
{
    let c = chars_of(input);
    status_from_chars(&c)
}

fn status_from_chars(c: &Vec<char>) -> (r: Option<ReviewStatus>)
    ensures
        r == status_from_text_spec(c@),
{
    if eq_str(c, "待修正") || eq_str(c, "needs_fix") || eq_str(c, "need_fix") {
        Some(ReviewStatus::NeedsFix)
    } else if eq_str(c, "驳回") || eq_str(c, "rejected") {
        Some(ReviewStatus::Rejected)
    } else if eq_str(c, "通过") || eq_str(c, "approved") || eq_str(c, "passed") {
        Some(ReviewStatus::Approved)
    } else if eq_str(c, "未评审") || eq_str(c, "pending") {
        Some(ReviewStatus::Pending)
    } else {
        None
    }
}

// ---------------------------------------------------------------------------
// Durations
// ---------------------------------------------------------------------------

/// `floor(scale × 0.d₁d₂…dₖ)` for the fraction digits `ds`, computed from the last digit
/// back: each step takes `(scale × d + carry) / 10`.
pub open spec fn frac_scaled(ds: Seq<char>, scale: nat) -> nat
    decreases ds.len(),
{
    if ds.len() == 0 {
        0
    } else {
        ((scale * ((ds[0] as u32) - 48) as nat + frac_scaled(ds.drop_first(), scale)) / 10) as nat
    }
}

/// Index of the decimal point in `s`, or its length.
pub open spec fn point_index(s: Seq<char>) -> int {
    crate::text::first_index_of(s, '.')
}

/// The milliseconds of a decimal number of units of `scale` milliseconds: an optional sign,
/// digits with at most one decimal point and at least one digit, truncated toward zero,
/// negative values giving zero and large ones the largest `u64`.
pub open spec fn decimal_scaled(s: Seq<char>, scale: nat) -> Option<nat> {
    let neg = s.len() > 0 && s[0] == '-';
    let body = if s.len() > 0 && (s[0] == '-' || s[0] == '+') { s.drop_first() } else { s };
    let p = point_index(body);
    let int_part = body.subrange(0, p);
    let frac = if p < body.len() { body.subrange(p + 1, body.len() as int) } else { Seq::empty() };
    if int_part.len() + frac.len() == 0 || !all_digits(int_part) || !all_digits(frac) {
        None
    } else if neg {
        Some(0)
    } else {
        let v = digits_value(int_part) * scale + frac_scaled(frac, scale);
        Some(if v > u64::MAX { u64::MAX as nat } else { v })
    }
}

/// A duration in the search language: `<n>s` seconds, `<n>m` minutes (both decimal), or a
/// whole number of milliseconds, after trimming.
pub open spec fn duration_spec(input: Seq<char>) -> Option<u64> {
    let raw = trim(input);
    let r = if raw.len() > 0 && raw.last() == 's' {
        decimal_scaled(raw.drop_last(), 1000)
    } else if raw.len() > 0 && raw.last() == 'm' {
        decimal_scaled(raw.drop_last(), 60_000)
    } else {
        parse_unsigned(raw, u64::MAX as nat)
    };
    match r {
        Some(v) => Some(v as u64),
        None => None,
    }
}

proof fn lemma_digits_value_step(s: Seq<char>, i: int)
    requires
        0 <= i < s.len(),
    ensures
        digits_value(s.subrange(0, i + 1)) == digits_value(s.subrange(0, i)) * 10 + ((s[i] as u32) - 48) as nat,
{
    assert(s.subrange(0, i + 1).drop_last() =~= s.subrange(0, i));
}

proof fn lemma_digits_value_mono(s: Seq<char>, i: int)
    requires
        0 <= i <= s.len(),
        all_digits(s),
    ensures
        digits_value(s.subrange(0, i)) <= digits_value(s),
    decreases s.len() - i,
{
    if i < s.len() {
        lemma_digits_value_mono(s, i + 1);
        lemma_digits_value_step(s, i);
    } else {
        assert(s.subrange(0, i) =~= s);
    }
}

proof fn lemma_frac_scaled_bound(ds: Seq<char>, scale: nat)
    requires
        all_digits(ds),
    ensures
        frac_scaled(ds, scale) <= scale,
    decreases ds.len(),
{
    if ds.len() > 0 {
        assert(all_digits(ds.drop_first())) by {
            assert forall|i: int| 0 <= i < ds.drop_first().len() implies crate::text::is_digit_ascii(#[trigger] ds.drop_first()[i]) by {
                assert(ds.drop_first()[i] == ds[i + 1]);
            }
        }
        lemma_frac_scaled_bound(ds.drop_first(), scale);
        assert(crate::text::is_digit_ascii(ds[0]));
        let d = ((ds[0] as u32) - 48) as nat;
        assert(d <= 9);
        assert(scale * d <= scale * 9) by (nonlinear_arith)
            requires d <= 9;
    }
}

fn frac_scaled_exec(ds: &Vec<char>, scale: u64) -> (r: u64)
    requires
        all_digits(ds@),
        scale <= 60_000,
    ensures
        r == frac_scaled(ds@, scale as nat),
{
    let mut carry: u64 = 0;
    let mut i: usize = ds.len();
    proof {
        assert(ds@.subrange(i as int, ds@.len() as int) =~= Seq::<char>::empty());
    }
    while i > 0
        invariant
            i <= ds@.len(),
            all_digits(ds@),
            scale <= 60_000,
            carry == frac_scaled(ds@.subrange(i as int, ds@.len() as int), scale as nat),
            carry <= scale,
        decreases i,
    {
        i -= 1;
        let ghost tail = ds@.subrange(i as int, ds@.len() as int);
        proof {
            assert(tail.drop_first() =~= ds@.subrange(i + 1, ds@.len() as int));
            assert(tail[0] == ds@[i as int]);
            assert(crate::text::is_digit_ascii(ds@[i as int]));
            assert(all_digits(tail)) by {
                assert forall|j: int| 0 <= j < tail.len() implies crate::text::is_digit_ascii(#[trigger] tail[j]) by {
                    assert(tail[j] == ds@[i + j]);
                }
            }
            lemma_frac_scaled_bound(tail, scale as nat);
        }
        let d: u64 = (ds[i] as u32 - 48) as u64;
        assert(scale * d <= 60_000 * 9) by (nonlinear_arith)
            requires scale <= 60_000, d <= 9;
        carry = (scale * d + carry) / 10;
    }
    proof {
        assert(ds@.subrange(0, ds@.len() as int) =~= ds@);
    }
    carry
}

fn all_digits_exec(v: &Vec<char>) -> (r: bool)
    ensures
        r == all_digits(v@),
{
    let mut k: usize = 0;
    while k < v.len()
        invariant
            k <= v@.len(),
            forall|j: int| 0 <= j < k ==> crate::text::is_digit_ascii(#[trigger] v@[j]),
        decreases v@.len() - k,
    {
        let c = v[k];
        if !('0' <= c && c <= '9') {
            assert(!crate::text::is_digit_ascii(v@[k as int]));
            return false;
        }
        k += 1;
    }
    true
}

/// The value of a run of digits, capped at `2^64`.
fn capped_digits_value(v: &Vec<char>) -> (r: u128)
    requires
        all_digits(v@),
    ensures
        r == (if digits_value(v@) > 0x1_0000_0000_0000_0000u128 { 0x1_0000_0000_0000_0000u128 as nat } else { digits_value(v@) }),
{
    let cap: u128 = 0x1_0000_0000_0000_0000;
    let mut acc: u128 = 0;
    let mut i: usize = 0;
    while i < v.len()
        invariant
            i <= v@.len(),
            all_digits(v@),
            acc == (if digits_value(v@.subrange(0, i as int)) > cap { cap as nat } else { digits_value(v@.subrange(0, i as int)) }),
            cap == 0x1_0000_0000_0000_0000u128,
        decreases v@.len() - i,
    {
        let d: u128 = (v[i] as u32 - 48) as u128;
        proof {
            lemma_digits_value_step(v@, i as int);
            assert(crate::text::is_digit_ascii(v@[i as int]));
        }
        if acc >= cap {
            acc = cap;
        } else {
            let next = acc * 10 + d;
            acc = if next > cap { cap } else { next };
        }
        i += 1;
    }
    proof {
        assert(v@.subrange(0, i as int) =~= v@);
    }
    acc
}

/// The milliseconds of a decimal number of `scale`-millisecond units.
fn decimal_scaled_exec(s: &Vec<char>, scale: u64) -> (r: Option<u64>)
    requires
        1 <= scale <= 60_000,
    ensures
        match decimal_scaled(s@, scale as nat) {
            Some(v) => r == Some(v as u64),
            None => r is None,
        },
{
    let neg = s.len() > 0 && s[0] == '-';
    let start: usize = if s.len() > 0 && (s[0] == '-' || s[0] == '+') { 1 } else { 0 };
    let body = slice_vec(s, start, s.len());
    proof {
        if s@.len() > 0 && (s@[0] == '-' || s@[0] == '+') {
            assert(body@ =~= s@.drop_first());
        } else {
            assert(body@ =~= s@);
        }
        crate::text::lemma_first_index_of(body@, '.');
    }
    let int_part = crate::text::before_char_vec(&body, '.');
    let p = int_part.len();
    let frac: Vec<char> = if p < body.len() { slice_vec(&body, p + 1, body.len()) } else { Vec::new() };
    proof {
        assert(frac@ =~= (if p < body@.len() { body@.subrange(p + 1, body@.len() as int) } else { Seq::empty() }));
    }
    if int_part.len() + frac.len() == 0 {
        return None;
    }
    if !all_digits_exec(&int_part) || !all_digits_exec(&frac) {
        return None;
    }
    if neg {
        return Some(0);
    }
    let cap: u128 = 0x1_0000_0000_0000_0000;
    let acc = capped_digits_value(&int_part);
    let f = frac_scaled_exec(&frac, scale);
    assert(acc * (scale as u128) <= cap * 60_000) by (nonlinear_arith)
        requires acc <= cap, scale <= 60_000;
    let total: u128 = acc * (scale as u128) + (f as u128);
    let max: u128 = 0xffff_ffff_ffff_ffff;
    proof {
        let v = digits_value(int_part@) * scale + frac_scaled(frac@, scale as nat);
        if digits_value(int_part@) > cap {
            assert(digits_value(int_part@) * scale >= cap * scale) by (nonlinear_arith)
                requires digits_value(int_part@) > cap, scale >= 1;
            assert(cap * (scale as nat) >= cap) by (nonlinear_arith)
                requires scale >= 1;
        }
    }
    Some(if total > max { 0xffff_ffff_ffff_ffff } else { total as u64 })
}

/// Reads a duration of the search language.
pub fn parse_duration_ms(input: &str) -> (r: Option<u64>)
    ensures
        r == duration_spec(input@),
{
    let c = chars_of(input);
    let raw = trim_vec(&c);
    let n = raw.len();
    if n > 0 && raw[n - 1] == 's' {
        let body = slice_vec(&raw, 0, n - 1);
        proof {
            assert(body@ =~= raw@.drop_last());
        }
        decimal_scaled_exec(&body, 1000)
    } else if n > 0 && raw[n - 1] == 'm' {
        let body = slice_vec(&raw, 0, n - 1);
        proof {
            assert(body@ =~= raw@.drop_last());
        }
        decimal_scaled_exec(&body, 60_000)
    } else {
        parse_unsigned_vec(&raw, 0xffff_ffff_ffff_ffff)
    }
}

// ---------------------------------------------------------------------------
// Search queries
// ---------------------------------------------------------------------------

/// A parsed query as plain values: verdict, text (lower case), and exclusive duration bounds.
pub type QueryView = (Option<ReviewStatus>, Option<Seq<char>>, Option<u64>, Option<u64>);

/// The verdict that free text mentions, checked in the order needs-fix, rejected,
/// approved, pending.
pub open spec fn status_keyword(l: Seq<char>) -> Option<ReviewStatus> {
    if contains(l, "待修正"@) || contains(l, "needs_fix"@) {
        Some(ReviewStatus::NeedsFix)
    } else if contains(l, "驳回"@) || contains(l, "rejected"@) {
        Some(ReviewStatus::Rejected)
    } else if contains(l, "通过"@) || contains(l, "approved"@) || contains(l, "passed"@) {
        Some(ReviewStatus::Approved)
    } else if contains(l, "未评审"@) || contains(l, "pending"@) {
        Some(ReviewStatus::Pending)
    } else {
        None
    }
}

/// What one word of a query sets.
pub open spec fn apply_token(q: QueryView, t: Seq<char>) -> QueryView {
    if starts_with(t, "status:"@) {
        (status_from_text_spec(t.subrange(7, t.len() as int)), q.1, q.2, q.3)
    } else if starts_with(t, "duration>"@) {
        (q.0, q.1, duration_spec(t.subrange(9, t.len() as int)), q.3)
    } else if starts_with(t, "duration<"@) {
        (q.0, q.1, q.2, duration_spec(t.subrange(9, t.len() as int)))
    } else if starts_with(t, "text:"@) {
        (q.0, Some(lower(t.subrange(5, t.len() as int))), q.2, q.3)
    } else {
        q
    }
}

/// The words applied in order; a later word overrides an earlier one.
pub open spec fn apply_tokens(q: QueryView, toks: Seq<Seq<char>>) -> QueryView
    decreases toks.len(),
{
    if toks.len() == 0 {
        q
    } else {
        apply_tokens(apply_token(q, toks[0]), toks.drop_first())
    }
}

/// The query that a search text means: a verdict mentioned anywhere, then the structured
/// words; with nothing structured found, the whole text (lower case) is searched for.
pub open spec fn parse_spec(input: Seq<char>) -> QueryView {
    let l = lower(input);
    let q = apply_tokens((status_keyword(l), None, None, None), split_ws(input));
    if q.0 is None && q.1 is None && q.2 is None && q.3 is None {
        (None, Some(l), None, None)
    } else {
        q
    }
}

/// The text that free-text search looks in: file name, remark, device, codec and size,
/// lower case.
pub open spec fn haystack(item: VideoItem) -> Seq<char> {
    let name = match file_name_of(item.file_path@) {
        Some(n) => n,
        None => Seq::empty(),
    };
    let remark = match item.remark {
        Some(r) => r@,
        None => Seq::empty(),
    };
    let device = match item.device_model {
        Some(d) => d@,
        None => Seq::empty(),
    };
    lower(name + " "@ + remark + " "@ + device + " "@ + item.video_codec@ + " "@
        + decimal(item.width as nat) + "x"@ + decimal(item.height as nat))
}

/// An item satisfies a query when it has the verdict, lasts strictly between the bounds,
/// and its text holds the searched text.
pub open spec fn matches_spec(q: QueryView, item: VideoItem) -> bool {
    &&& (q.0 matches Some(s) ==> item.status == s)
    &&& (q.2 matches Some(min) ==> item.duration_ms > min)
    &&& (q.3 matches Some(max) ==> item.duration_ms < max)
    &&& (q.1 matches Some(t) ==> contains(haystack(item), t))
}

/// Free-text search looks in the file name: the searched text of an item holds its whole
/// file name in lower case, so a query for any text that occurs in that lower-cased name
/// (and that sets nothing else) matches the item.
pub proof fn law_search_finds_file_name(item: VideoItem, t: Seq<char>)
    requires
        file_name_of(item.file_path@) is Some,
        contains(lower(file_name_of(item.file_path@).unwrap()), t),
    ensures
        contains(haystack(item), lower(file_name_of(item.file_path@).unwrap())),
        matches_spec((None, Some(t), None, None), item),
{
    let n = file_name_of(item.file_path@).unwrap();
    let h = haystack(item);
    let ln = lower(n);
    assert(ln.len() <= h.len());
    assert forall|k: int| 0 <= k < ln.len() implies h[k] == ln[k] by {
        let remark = match item.remark {
            Some(r) => r@,
            None => Seq::empty(),
        };
        let device = match item.device_model {
            Some(d) => d@,
            None => Seq::empty(),
        };
        let whole = n + " "@ + remark + " "@ + device + " "@ + item.video_codec@ + " "@
            + decimal(item.width as nat) + "x"@ + decimal(item.height as nat);
        assert(whole[k] == n[k]);
    }
    assert(occurs_at(h, ln, 0)) by {
        assert(h.subrange(0, ln.len() as int) =~= ln);
    }
    let i = choose|i: int| occurs_at(ln, t, i);
    assert(occurs_at(h, t, i)) by {
        assert(h.subrange(i, i + t.len()) =~= ln.subrange(i, i + t.len()));
    }
}

proof fn lemma_lower_tail(a: Seq<char>, x: Seq<char>)
    ensures
        occurs_at(lower(a + x), lower(x), a.len() as int),
{
    let w = a + x;
    assert(lower(w).subrange(a.len() as int, (a.len() + x.len()) as int) =~= lower(x)) by {
        assert forall|k: int| 0 <= k < x.len() implies lower(w)[a.len() + k] == lower(x)[k] by {
            assert(w[a.len() + k] == x[k]);
        }
    }
}

proof fn lemma_lower_extend(a: Seq<char>, b: Seq<char>, n: Seq<char>, i: int)
    requires
        occurs_at(lower(a), n, i),
    ensures
        occurs_at(lower(a + b), n, i),
{
    let w = a + b;
    assert(lower(w).subrange(i, i + n.len()) =~= lower(a).subrange(i, i + n.len())) by {
        assert forall|k: int| i <= k < i + n.len() implies lower(w)[k] == lower(a)[k] by {
            assert(w[k] == a[k]);
        }
    }
}

/// Free-text search also looks in the remark, the device model and the video codec: the
/// searched text of an item holds each of them in lower case.
pub proof fn law_search_looks_in_remark_device_codec(item: VideoItem)
    ensures
        item.remark matches Some(r) ==> contains(haystack(item), lower(r@)),
        item.device_model matches Some(d) ==> contains(haystack(item), lower(d@)),
        contains(haystack(item), lower(item.video_codec@)),
{
    let name = match file_name_of(item.file_path@) {
        Some(n) => n,
        None => Seq::empty(),
    };
    let remark = match item.remark {
        Some(r) => r@,
        None => Seq::empty(),
    };
    let device = match item.device_model {
        Some(d) => d@,
        None => Seq::empty(),
    };
    let sp = " "@;
    let w = decimal(item.width as nat);
    let x = "x"@;
    let h = decimal(item.height as nat);
    let c = item.video_codec@;
    let s1 = name + sp;
    let s2 = s1 + remark;
    let s3 = s2 + sp;
    let s4 = s3 + device;
    let s5 = s4 + sp;
    let s6 = s5 + c;
    let s7 = s6 + sp;
    let s8 = s7 + w;
    let s9 = s8 + x;
    let s10 = s9 + h;
    assert(haystack(item) == lower(s10));
    let i1 = s1.len() as int;
    lemma_lower_tail(s1, remark);
    lemma_lower_extend(s2, sp, lower(remark), i1);
    lemma_lower_extend(s3, device, lower(remark), i1);
    lemma_lower_extend(s4, sp, lower(remark), i1);
    lemma_lower_extend(s5, c, lower(remark), i1);
    lemma_lower_extend(s6, sp, lower(remark), i1);
    lemma_lower_extend(s7, w, lower(remark), i1);
    lemma_lower_extend(s8, x, lower(remark), i1);
    lemma_lower_extend(s9, h, lower(remark), i1);
    let i3 = s3.len() as int;
    lemma_lower_tail(s3, device);
    lemma_lower_extend(s4, sp, lower(device), i3);
    lemma_lower_extend(s5, c, lower(device), i3);
    lemma_lower_extend(s6, sp, lower(device), i3);
    lemma_lower_extend(s7, w, lower(device), i3);
    lemma_lower_extend(s8, x, lower(device), i3);
    lemma_lower_extend(s9, h, lower(device), i3);
    let i5 = s5.len() as int;
    lemma_lower_tail(s5, c);
    lemma_lower_extend(s6, sp, lower(c), i5);
    lemma_lower_extend(s7, w, lower(c), i5);
    lemma_lower_extend(s8, x, lower(c), i5);
    lemma_lower_extend(s9, h, lower(c), i5);
}

proof fn lemma_split_one_word(s: Seq<char>, i: int, cur: Seq<char>, acc: Seq<Seq<char>>)
    requires
        0 <= i <= s.len(),
        forall|k: int| 0 <= k < s.len() ==> !is_white_space(#[trigger] s[k]),
        cur.len() + (s.len() - i) > 0,
    ensures
        split_ws_from(s, i, cur, acc) == acc.push(cur + s.subrange(i, s.len() as int)),
    decreases s.len() - i,
{
    if i < s.len() {
        lemma_split_one_word(s, i + 1, cur.push(s[i]), acc);
        assert(cur.push(s[i]) + s.subrange(i + 1, s.len() as int) =~= cur + s.subrange(i, s.len() as int));
    } else {
        assert(cur + s.subrange(i, s.len() as int) =~= cur);
    }
}

/// A search for `text:<u>`, a single word that names no verdict, matches every item whose
/// lower-cased file name holds `u` in lower case.
pub proof fn law_text_query_finds_file_name(item: VideoItem, u: Seq<char>)
    requires
        forall|k: int| 0 <= k < u.len() ==> !is_white_space(#[trigger] u[k]),
        status_keyword(lower("text:"@ + u)) is None,
        file_name_of(item.file_path@) is Some,
        contains(lower(file_name_of(item.file_path@).unwrap()), lower(u)),
    ensures
        matches_spec(parse_spec("text:"@ + u), item),
{
    reveal_strlit("text:");
    reveal_strlit("status:");
    reveal_strlit("duration>");
    reveal_strlit("duration<");
    let w = "text:"@ + u;
    assert forall|k: int| 0 <= k < w.len() implies !is_white_space(#[trigger] w[k]) by {
        if k >= 5 {
            assert(w[k] == u[k - 5]);
        }
    }
    lemma_split_one_word(w, 0, Seq::empty(), Seq::empty());
    assert(Seq::<char>::empty() + w.subrange(0, w.len() as int) =~= w);
    let toks = split_ws(w);
    assert(toks =~= seq![w]);
    let q0: QueryView = (None, None, None, None);
    assert(w[0] == 't');
    assert(!starts_with(w, "status:"@)) by {
        if w.len() >= 7 {
            assert(w.subrange(0, 7)[0] == w[0]);
            assert("status:"@[0] == 's');
        }
    }
    assert(!starts_with(w, "duration>"@)) by {
        if w.len() >= 9 {
            assert(w.subrange(0, 9)[0] == w[0]);
            assert("duration>"@[0] == 'd');
        }
    }
    assert(!starts_with(w, "duration<"@)) by {
        if w.len() >= 9 {
            assert(w.subrange(0, 9)[0] == w[0]);
            assert("duration<"@[0] == 'd');
        }
    }
    assert(starts_with(w, "text:"@)) by {
        assert(w.subrange(0, 5) =~= "text:"@);
    }
    assert(w.subrange(5, w.len() as int) =~= u);
    assert(apply_token(q0, w) == (None::<ReviewStatus>, Some(lower(u)), None::<u64>, None::<u64>));
    assert(toks.drop_first() =~= Seq::<Seq<char>>::empty());
    assert(apply_tokens(q0, toks) == apply_tokens(apply_token(q0, toks[0]), toks.drop_first()));
    law_search_finds_file_name(item, lower(u));
}

/// A search for a single plain word (no verdict named, no `status:`, `duration<`,
/// `duration>` or `text:` prefix) matches every item whose lower-cased file name holds the
/// word in lower case.
pub proof fn law_plain_query_finds_file_name(item: VideoItem, t: Seq<char>)
    requires
        t.len() > 0,
        forall|k: int| 0 <= k < t.len() ==> !is_white_space(#[trigger] t[k]),
        status_keyword(lower(t)) is None,
        !starts_with(t, "status:"@),
        !starts_with(t, "duration>"@),
        !starts_with(t, "duration<"@),
        !starts_with(t, "text:"@),
        file_name_of(item.file_path@) is Some,
        contains(lower(file_name_of(item.file_path@).unwrap()), lower(t)),
    ensures
        matches_spec(parse_spec(t), item),
{
    lemma_split_one_word(t, 0, Seq::empty(), Seq::empty());
    assert(Seq::<char>::empty() + t.subrange(0, t.len() as int) =~= t);
    let toks = split_ws(t);
    assert(toks =~= seq![t]);
    let q0: QueryView = (None, None, None, None);
    assert(apply_token(q0, t) == q0);
    assert(toks.drop_first() =~= Seq::<Seq<char>>::empty());
    assert(apply_tokens(q0, toks) == apply_tokens(apply_token(q0, toks[0]), toks.drop_first()));
    law_search_finds_file_name(item, lower(t));
}

/// A parsed search query.
#[derive(Debug)]
pub struct VideoQuery {
    pub status: Option<ReviewStatus>,
    pub text: Option<String>,
    pub min_duration_ms: Option<u64>,
    pub max_duration_ms: Option<u64>,
}

pub open spec fn ov(o: Option<Vec<char>>) -> Option<Seq<char>> {
    match o {
        Some(v) => Some(v@),
        None => None,
    }
}

fn opt_chars(o: &Option<Vec<char>>) -> (r: Option<String>)
    ensures
        (match r {
            Some(s) => Some(s@),
            None => None,
        }) == (match o {
            Some(v) => Some(v@),
            None => None,
        }),
{
    match o {
        Some(v) => Some(string_from_chars(v)),
        None => None,
    }
}

fn status_keyword_exec(l: &Vec<char>) -> (r: Option<ReviewStatus>)
    ensures
        r == status_keyword(l@),
{
    if contains_exec(l, &chars_of("待修正")) || contains_exec(l, &chars_of("needs_fix")) {
        Some(ReviewStatus::NeedsFix)
    } else if contains_exec(l, &chars_of("驳回")) || contains_exec(l, &chars_of("rejected")) {
        Some(ReviewStatus::Rejected)
    } else if contains_exec(l, &chars_of("通过")) || contains_exec(l, &chars_of("approved"))
        || contains_exec(l, &chars_of("passed")) {
        Some(ReviewStatus::Approved)
    } else if contains_exec(l, &chars_of("未评审")) || contains_exec(l, &chars_of("pending")) {
        Some(ReviewStatus::Pending)
    } else {
        None
    }
}

impl VideoQuery {
    pub open spec fn view(&self) -> QueryView {
        (
            self.status,
            match self.text {
                Some(t) => Some(t@),
                None => None,
            },
            self.min_duration_ms,
            self.max_duration_ms,
        )
    }

    /// Parses a search text.
    pub fn parse(input: &str) -> (r: VideoQuery)
        ensures
            r.view() == parse_spec(input@),
    {
        let c = chars_of(input);
        let l = lower_vec(&c);
        let mut status = status_keyword_exec(&l);
        let mut text: Option<Vec<char>> = None;
        let mut min: Option<u64> = None;
        let mut max: Option<u64> = None;
        let toks = split_ws_vec(&c);
        let ghost all = views(toks@);
        let ghost q0: QueryView = (status, None, None, None);
        let mut i: usize = 0;
        proof {
            assert(all.subrange(0, all.len() as int) =~= all);
        }
        while i < toks.len()
            invariant
                i <= toks@.len(),
                all == views(toks@),
                all == split_ws(c@),
                apply_tokens(q0, all) == apply_tokens((status, ov(text), min, max), all.subrange(i as int, all.len() as int)),
            decreases toks@.len() - i,
        {
            let t = &toks[i];
            let ghost cur: QueryView = (status, ov(text), min, max);
            proof {
                let rest = all.subrange(i as int, all.len() as int);
                assert(rest[0] == t@);
                assert(rest.drop_first() =~= all.subrange(i + 1, all.len() as int));
            }
            if starts_with_exec(t, &chars_of("status:")) {
                proof { reveal_strlit("status:"); }
                let v = slice_vec(t, 7, t.len());
                status = status_from_chars(&v);
                proof { reveal_strlit("status:"); }
            } else if starts_with_exec(t, &chars_of("duration>")) {
                proof { reveal_strlit("duration>"); }
                let v = slice_vec(t, 9, t.len());
                min = parse_duration_ms(string_from_chars(&v).as_str());
                proof { reveal_strlit("duration>"); }
            } else if starts_with_exec(t, &chars_of("duration<")) {
                proof { reveal_strlit("duration<"); }
                let v = slice_vec(t, 9, t.len());
                max = parse_duration_ms(string_from_chars(&v).as_str());
                proof { reveal_strlit("duration<"); }
            } else if starts_with_exec(t, &chars_of("text:")) {
                proof { reveal_strlit("text:"); }
                let v = slice_vec(t, 5, t.len());
                text = Some(lower_vec(&v));
                proof { reveal_strlit("text:"); }
            }
            proof {
                assert(apply_token(cur, t@) == (status, ov(text), min, max));
            }
            i += 1;
        }
        proof {
            assert(all.subrange(i as int, all.len() as int) =~= Seq::<Seq<char>>::empty());
        }
        if text.is_none() && status.is_none() && min.is_none() && max.is_none() {
            text = Some(l);
        }
        VideoQuery { status, text: opt_chars(&text), min_duration_ms: min, max_duration_ms: max }
    }

    /// Whether `item` satisfies the query.
    pub fn matches(&self, item: &VideoItem) -> (r: bool)
        ensures
            r == matches_spec(self.view(), *item),
    {
        if let Some(status) = self.status {
            if item.status != status {
                return false;
            }
        }
        if let Some(min) = self.min_duration_ms {
            if item.duration_ms <= min {
                return false;
            }
        }
        if let Some(max) = self.max_duration_ms {
            if item.duration_ms >= max {
                return false;
            }
        }
        if let Some(text) = &self.text {
            let h = haystack_exec(item);
            let t = chars_of_string(text);
            if !contains_exec(&h, &t) {
                return false;
            }
        }
        true
    }
}

fn opt_str_chars(o: &Option<String>) -> (r: Vec<char>)
    ensures
        r@ == (match o {
            Some(s) => s@,
            None => Seq::empty(),
        }),
{
    match o {
        Some(s) => chars_of_string(s),
        None => Vec::new(),
    }
}

fn haystack_exec(item: &VideoItem) -> (r: Vec<char>)
    ensures
        r@ == haystack(*item),
{
    let name = opt_str_chars(&file_name(item.file_path.as_str()));
    let mut out: Vec<char> = Vec::new();
    push_all(&mut out, &name);
    push_str(&mut out, " ");
    push_all(&mut out, &opt_str_chars(&item.remark));
    push_str(&mut out, " ");
    push_all(&mut out, &opt_str_chars(&item.device_model));
    push_str(&mut out, " ");
    push_all(&mut out, &chars_of_string(&item.video_codec));
    push_str(&mut out, " ");
    push_decimal(&mut out, item.width as u64);
    push_str(&mut out, "x");
    push_decimal(&mut out, item.height as u64);
    lower_vec(&out)
}

// ---------------------------------------------------------------------------
// Filters and file types
// ---------------------------------------------------------------------------

impl Clone for VideoItem {
    fn clone(&self) -> (r: Self)
        ensures
            r == *self,
    {
        VideoItem {
            id: self.id,
            batch_id: self.batch_id,
            file_path: self.file_path.clone(),
            status: self.status,
            remark: crate::server::models::clone_opt_string(&self.remark),
            thumbnail_path: crate::server::models::clone_opt_string(&self.thumbnail_path),
            duration_ms: self.duration_ms,
            width: self.width,
            height: self.height,
            video_codec: self.video_codec.clone(),
            audio_codec: crate::server::models::clone_opt_string(&self.audio_codec),
            bitrate_kbps: self.bitrate_kbps,
            device_model: crate::server::models::clone_opt_string(&self.device_model),
            offset_ms: self.offset_ms,
            created_at: self.created_at,
            updated_at: self.updated_at,
            deleted_at: self.deleted_at,
        }
    }
}

/// What a batch view shows: a verdict, a search text, tags, and whether deleted videos
/// are included.
#[derive(Debug)]
pub struct VideoFilter {
    pub status: Option<ReviewStatus>,
    pub search: String,
    pub tag_ids: Vec<i64>,
    pub include_deleted: bool,
}

/// An item kept by a filter with verdict `status` and search text `search`.
pub open spec fn kept_by(status: Option<ReviewStatus>, search: Seq<char>, item: VideoItem) -> bool {
    &&& (status matches Some(s) ==> item.status == s)
    &&& (search.len() > 0 ==> matches_spec(parse_spec(search), item))
}

impl VideoFilter {
    /// No verdict, no search, no tags, deleted videos hidden.
    pub fn new() -> (r: Self)
        ensures
            r.status is None,
            r.search@.len() == 0,
            r.tag_ids@.len() == 0,
            !r.include_deleted,
    {
        VideoFilter { status: None, search: String::new(), tag_ids: Vec::new(), include_deleted: false }
    }

    /// Back to the empty filter.
    pub fn reset(&mut self)
        ensures
            final(self).status is None,
            final(self).search@.len() == 0,
            final(self).tag_ids@.len() == 0,
            !final(self).include_deleted,
    {
        *self = VideoFilter::new();
    }

    /// Keeps, in order, the items with the filter's verdict that match its search text.
    pub fn apply_in_memory(&self, items: &mut Vec<VideoItem>)
        ensures
            final(items)@ == old(items)@.filter(|it: VideoItem| kept_by(self.status, self.search@, it)),
    {
        let query = VideoQuery::parse(self.search.as_str());
        let searching = !self.search.as_str().is_empty();
        let ghost pred = |it: VideoItem| kept_by(self.status, self.search@, it);
        let mut out: Vec<VideoItem> = Vec::new();
        let mut i: usize = 0;
        while i < items.len()
            invariant
                i <= items@.len(),
                *items == *old(items),
                query.view() == parse_spec(self.search@),
                searching == (self.search@.len() > 0),
                pred == (|it: VideoItem| kept_by(self.status, self.search@, it)),
                out@ == items@.subrange(0, i as int).filter(pred),
            decreases items@.len() - i,
        {
            proof {
                assert(items@.subrange(0, i + 1).drop_last() =~= items@.subrange(0, i as int));
                reveal_with_fuel(Seq::filter, 1);
            }
            let it = &items[i];
            let keep_status = match self.status {
                Some(s) => it.status == s,
                None => true,
            };
            let keep = keep_status && (!searching || query.matches(it));
            if keep {
                out.push(it.clone());
            }
            i += 1;
        }
        proof {
            assert(items@.subrange(0, i as int) =~= items@);
        }
        *items = out;
    }
}

/// The extensions of video files, lower case.
pub open spec fn is_video_extension_spec(ext: Seq<char>) -> bool {
    let l = lower(ext);
    l == "mp4"@ || l == "mov"@ || l == "mkv"@ || l == "webm"@ || l == "avi"@ || l == "m4v"@
}

/// Whether `ext` (in any ASCII case) is a video file extension.
pub fn is_video_extension(ext: &str) -> (r: bool)
    ensures
        r == is_video_extension_spec(ext@),
{
    let l = lower_vec(&chars_of(ext));
    eq_str(&l, "mp4") || eq_str(&l, "mov") || eq_str(&l, "mkv") || eq_str(&l, "webm") || eq_str(&l, "avi")
        || eq_str(&l, "m4v")
}

} // verus!
