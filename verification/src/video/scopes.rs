//! Video scopes: which frames of a time range to sample, how per-frame analyses add up,
//! the keys and shader modes of the views, and the counting of waveforms and RGB
//! histograms. Luma and chroma values and the normalising of counts for display are
//! floating-point colour math, done by the caller.
use vstd::prelude::*;

use crate::text::string_of;

verus! {

pub const AGG_FRAME_WIDTH: u32 = 960;
pub const WAVEFORM_FIXED_WIDTH: u32 = 640;
pub const MIN_SAMPLES: usize = 16;
pub const MAX_SAMPLES: usize = 160;
pub const VECTOR_SIZE: u32 = 256;

/// Which scope.
#[derive(Debug, Clone, Copy, PartialEq, Eq, Structural)]
pub enum ScopeKind {
    Histogram,
    Waveform,
    Vectorscope,
}

impl ScopeKind {
    pub open spec fn label_spec(self) -> Seq<char> {
        match self {
            ScopeKind::Histogram => "Histogram"@,
            ScopeKind::Waveform => "Waveform"@,
            ScopeKind::Vectorscope => "Vectorscope"@,
        }
    }

    pub fn label(self) -> (r: &'static str)
        ensures
            r@ == self.label_spec(),
    {
        match self {
            ScopeKind::Histogram => "Histogram",
            ScopeKind::Waveform => "Waveform",
            ScopeKind::Vectorscope => "Vectorscope",
        }
    }
}

/// How histogram channels are laid out.
#[derive(Debug, Clone, Copy, PartialEq, Eq, Structural)]
pub enum HistogramMode {
    Parade,
    Overlay,
    Stack,
}

/// Histogram height scale.
#[derive(Debug, Clone, Copy, PartialEq, Eq, Structural)]
pub enum HistogramScale {
    Linear,
    Log,
}

/// What a waveform plots.
#[derive(Debug, Clone, Copy, PartialEq, Eq, Structural)]
pub enum WaveformMode {
    Luma,
    RgbParade,
}

pub open spec fn histogram_mode_code(m: HistogramMode) -> u8 {
    match m {
        HistogramMode::Parade => 0,
        HistogramMode::Overlay => 1,
        HistogramMode::Stack => 2,
    }
}

pub open spec fn histogram_scale_code(s: HistogramScale) -> u8 {
    match s {
        HistogramScale::Linear => 0,
        HistogramScale::Log => 1,
    }
}

pub open spec fn waveform_mode_code(m: WaveformMode) -> u8 {
    match m {
        WaveformMode::Luma => 0,
        WaveformMode::RgbParade => 1,
    }
}

fn histogram_mode_code_exec(m: HistogramMode) -> (r: u8)
    ensures
        r == histogram_mode_code(m),
{
    match m {
        HistogramMode::Parade => 0,
        HistogramMode::Overlay => 1,
        HistogramMode::Stack => 2,
    }
}

fn histogram_scale_code_exec(s: HistogramScale) -> (r: u8)
    ensures
        r == histogram_scale_code(s),
{
    match s {
        HistogramScale::Linear => 0,
        HistogramScale::Log => 1,
    }
}

fn waveform_mode_code_exec(m: WaveformMode) -> (r: u8)
    ensures
        r == waveform_mode_code(m),
{
    match m {
        WaveformMode::Luma => 0,
        WaveformMode::RgbParade => 1,
    }
}

/// Display options of the scopes.
#[derive(Debug, Clone, Copy, PartialEq, Eq, Structural)]
pub struct ScopeOptions {
    pub histogram_mode: HistogramMode,
    pub histogram_scale: HistogramScale,
    pub waveform_mode: WaveformMode,
    pub vectorscope_75_box: bool,
}

impl ScopeOptions {
    /// Parade histogram on a linear scale, luma waveform, 75% boxes on the vectorscope.
    pub fn default_options() -> (r: Self)
        ensures
            r == (ScopeOptions {
                histogram_mode: HistogramMode::Parade,
                histogram_scale: HistogramScale::Linear,
                waveform_mode: WaveformMode::Luma,
                vectorscope_75_box: true,
            }),
    {
        ScopeOptions {
            histogram_mode: HistogramMode::Parade,
            histogram_scale: HistogramScale::Linear,
            waveform_mode: WaveformMode::Luma,
            vectorscope_75_box: true,
        }
    }
}

/// Scope kind and mode numbers handed to the shaders: `(kind, mode, scale)`.
pub open spec fn mode_uniforms(kind: ScopeKind, o: ScopeOptions) -> (u32, u32, u32) {
    match kind {
        ScopeKind::Histogram => (0, histogram_mode_code(o.histogram_mode) as u32, histogram_scale_code(o.histogram_scale) as u32),
        ScopeKind::Waveform => (1, waveform_mode_code(o.waveform_mode) as u32, 0),
        ScopeKind::Vectorscope => (2, 0, 0),
    }
}

pub fn scope_mode_uniforms(kind: ScopeKind, options: &ScopeOptions) -> (r: (u32, u32, u32))
    ensures
        r == mode_uniforms(kind, *options),
{
    match kind {
        ScopeKind::Histogram => (
            0,
            histogram_mode_code_exec(options.histogram_mode) as u32,
            histogram_scale_code_exec(options.histogram_scale) as u32,
        ),
        ScopeKind::Waveform => (1, waveform_mode_code_exec(options.waveform_mode) as u32, 0),
        ScopeKind::Vectorscope => (2, 0, 0),
    }
}

/// Cache key of a scope rendered for one frame.
#[derive(Debug)]
pub struct ScopeCacheKey {
    pub video_id: i64,
    pub time_ms: u64,
    pub kind: ScopeKind,
    pub histogram_mode: u8,
    pub histogram_scale: u8,
    pub waveform_mode: u8,
    pub vectorscope_75_box: bool,
    pub out_w: u32,
    pub out_h: u32,
    pub frame_path: String,
}

impl ScopeCacheKey {
    pub fn from_parts(video_id: i64, time_ms: u64, kind: ScopeKind, options: &ScopeOptions, out_w: u32, out_h: u32, frame_path: &str) -> (r: Self)
        ensures
            r.video_id == video_id && r.time_ms == time_ms && r.kind == kind,
            r.histogram_mode == histogram_mode_code(options.histogram_mode),
            r.histogram_scale == histogram_scale_code(options.histogram_scale),
            r.waveform_mode == waveform_mode_code(options.waveform_mode),
            r.vectorscope_75_box == options.vectorscope_75_box,
            r.out_w == out_w && r.out_h == out_h,
            r.frame_path@ == frame_path@,
    {
        ScopeCacheKey {
            video_id,
            time_ms,
            kind,
            histogram_mode: histogram_mode_code_exec(options.histogram_mode),
            histogram_scale: histogram_scale_code_exec(options.histogram_scale),
            waveform_mode: waveform_mode_code_exec(options.waveform_mode),
            vectorscope_75_box: options.vectorscope_75_box,
            out_w,
            out_h,
            frame_path: string_of(frame_path),
        }
    }
}

/// A time range in milliseconds.
#[derive(Debug, Clone, Copy, PartialEq, Eq, Structural)]
pub struct AggregateRange {
    pub start_ms: u64,
    pub end_ms: u64,
}

impl AggregateRange {
    /// The whole video (at least one millisecond).
    pub fn full(duration_ms: u64) -> (r: Self)
        ensures
            r.start_ms == 0,
            r.end_ms == if duration_ms < 1 { 1 } else { duration_ms },
    {
        AggregateRange { start_ms: 0, end_ms: if duration_ms < 1 { 1 } else { duration_ms } }
    }

    /// The range moved inside a video of `duration_ms`: it starts before the end and lasts
    /// at least a millisecond.
    pub fn clamped(self, duration_ms: u64) -> (r: Self)
        ensures
            ({
                let cap: int = if duration_ms < 1 { 1 } else { duration_ms as int };
                let start: int = if self.start_ms < cap - 1 { self.start_ms as int } else { cap - 1 };
                &&& r.start_ms == start
                &&& r.end_ms == (if self.end_ms < start + 1 { start + 1 } else if self.end_ms > cap { cap } else { self.end_ms as int })
            }),
            r.is_valid_spec(),
    {
        let cap: u64 = if duration_ms < 1 { 1 } else { duration_ms };
        let start = if self.start_ms < cap - 1 { self.start_ms } else { cap - 1 };
        let end = if self.end_ms < start + 1 {
            start + 1
        } else if self.end_ms > cap {
            cap
        } else {
            self.end_ms
        };
        AggregateRange { start_ms: start, end_ms: end }
    }

    pub open spec fn is_valid_spec(self) -> bool {
        self.end_ms > self.start_ms
    }

    pub fn is_valid(self) -> (r: bool)
        ensures
            r == self.is_valid_spec(),
    {
        self.end_ms > self.start_ms
    }

    pub fn duration_ms(self) -> (r: u64)
        ensures
            r == (if self.end_ms >= self.start_ms { self.end_ms - self.start_ms } else { 0 }),
    {
        self.end_ms.saturating_sub(self.start_ms)
    }
}

/// Frames to sample over a range: about one every 1.25 s (at least one), between
/// `MIN_SAMPLES` and `MAX_SAMPLES`.
pub open spec fn sample_count_spec(range_ms: nat) -> nat {
    let n: nat = if range_ms == 0 { 1 } else { ((range_ms + 1249) / 1250) as nat };
    if n < MIN_SAMPLES {
        MIN_SAMPLES as nat
    } else if n > MAX_SAMPLES {
        MAX_SAMPLES as nat
    } else {
        n
    }
}

pub fn sample_count_for_range(range_ms: u64) -> (r: usize)
    ensures
        r == sample_count_spec(range_ms as nat),
        MIN_SAMPLES <= r <= MAX_SAMPLES,
{
    let n: u64 = if range_ms == 0 { 1 } else { range_ms / 1250 + if range_ms % 1250 == 0 { 0 } else { 1 } };
    let r: usize = if n < 16 {
        16
    } else if n > 160 {
        160
    } else {
        n as usize
    };
    r
}

/// The `i`-th of `n` evenly spaced times over `[start, end]`.
pub open spec fn sample_time(range: AggregateRange, n: nat, i: nat) -> u64 {
    let span: int = range.end_ms - range.start_ms;
    let t: int = range.start_ms + span * (i as int) / (n as int - 1);
    (if t > range.end_ms { range.end_ms as int } else { t }) as u64
}

/// Evenly spaced sample times over a range, both ends included; a single start time for
/// an empty range.
pub fn sample_timestamps(range: AggregateRange) -> (r: Vec<u64>)
    requires
        range.is_valid_spec() ==> (range.end_ms - range.start_ms) * (MAX_SAMPLES - 1) <= u64::MAX,
    ensures
        !range.is_valid_spec() ==> r@ == seq![range.start_ms],
        range.is_valid_spec() ==> {
            let n = sample_count_spec((range.end_ms - range.start_ms) as nat);
            &&& r@.len() == n
            &&& forall|i: int| 0 <= i < n ==> #[trigger] r@[i] == sample_time(range, n, i as nat)
            &&& r@[0] == range.start_ms
            &&& r@[n - 1] == range.end_ms
        },
{
    if !range.is_valid() {
        return vec![range.start_ms];
    }
    let n = sample_count_for_range(range.duration_ms());
    let span = range.duration_ms();
    let mut out: Vec<u64> = Vec::new();
    let mut i: usize = 0;
    while i < n
        invariant
            i <= n,
            MIN_SAMPLES <= n <= MAX_SAMPLES,
            n == sample_count_spec(span as nat),
            span == range.end_ms - range.start_ms,
            span * (MAX_SAMPLES - 1) <= u64::MAX,
            range.is_valid_spec(),
            out@.len() == i,
            forall|j: int| 0 <= j < i ==> #[trigger] out@[j] == sample_time(range, n as nat, j as nat),
        decreases n - i,
    {
        assert(span * i <= span * (MAX_SAMPLES - 1)) by (nonlinear_arith)
            requires i < n, n <= MAX_SAMPLES;
        let q = span * (i as u64) / ((n as u64) - 1);
        assert(q <= span) by (nonlinear_arith)
            requires q == span * i / (n - 1), i <= n - 1, n >= 2;
        let t = range.start_ms + q;
        out.push(if t > range.end_ms { range.end_ms } else { t });
        i += 1;
    }
    proof {
        assert((span as int) * 0 / (n as int - 1) == 0) by (nonlinear_arith)
            requires n >= 2;
        assert((span as int) * (n as int - 1) / (n as int - 1) == span) by (nonlinear_arith)
            requires n >= 2;
    }
    out
}

// ---------------------------------------------------------------------------
// Accumulating analyses
// ---------------------------------------------------------------------------

/// Histogram counts: luma in fixed-point weights, and per-channel pixel counts; 256 bins each.
#[derive(Debug)]
pub struct HistogramBins {
    pub y: Vec<u64>,
    pub r: Vec<u32>,
    pub g: Vec<u32>,
    pub b: Vec<u32>,
}

impl HistogramBins {
    pub open spec fn wf(&self) -> bool {
        self.y@.len() == 256 && self.r@.len() == 256 && self.g@.len() == 256 && self.b@.len() == 256
    }

    /// All bins empty.
    pub fn empty() -> (r: Self)
        ensures
            r.wf(),
            forall|i: int| 0 <= i < 256 ==> r.y@[i] == 0 && r.r@[i] == 0 && r.g@[i] == 0 && r.b@[i] == 0,
    {
        HistogramBins { y: zeros_u64(256), r: zeros_u32(256), g: zeros_u32(256), b: zeros_u32(256) }
    }
}

fn zeros_u64(n: usize) -> (r: Vec<u64>)
    ensures
        r@.len() == n,
        forall|i: int| 0 <= i < n ==> r@[i] == 0,
{
    let mut v: Vec<u64> = Vec::new();
    let mut i: usize = 0;
    while i < n
        invariant
            i <= n,
            v@.len() == i,
            forall|j: int| 0 <= j < i ==> v@[j] == 0,
        decreases n - i,
    {
        v.push(0);
        i += 1;
    }
    v
}

fn zeros_u32(n: usize) -> (r: Vec<u32>)
    ensures
        r@.len() == n,
        forall|i: int| 0 <= i < n ==> r@[i] == 0,
{
    let mut v: Vec<u32> = Vec::new();
    let mut i: usize = 0;
    while i < n
        invariant
            i <= n,
            v@.len() == i,
            forall|j: int| 0 <= j < i ==> v@[j] == 0,
        decreases n - i,
    {
        v.push(0);
        i += 1;
    }
    v
}

pub open spec fn sat_u64(a: int, b: int) -> u64 {
    if a + b > u64::MAX { u64::MAX } else { (a + b) as u64 }
}

pub open spec fn sat_u32(a: int, b: int) -> u32 {
    if a + b > u32::MAX { u32::MAX } else { (a + b) as u32 }
}

/// `dst[i]` saturating-plus `src[i]` for every `i < n`, the rest of `dst` unchanged.
fn add_u64(dst: &mut Vec<u64>, src: &Vec<u64>, n: usize)
    requires
        n <= old(dst)@.len(),
        n <= src@.len(),
    ensures
        final(dst)@.len() == old(dst)@.len(),
        forall|i: int| 0 <= i < n ==> #[trigger] final(dst)@[i] == sat_u64(old(dst)@[i] as int, src@[i] as int),
        forall|i: int| n <= i < old(dst)@.len() ==> #[trigger] final(dst)@[i] == old(dst)@[i],
{
    let mut i: usize = 0;
    while i < n
        invariant
            i <= n,
            n <= src@.len(),
            dst@.len() == old(dst)@.len(),
            n <= dst@.len(),
            forall|j: int| 0 <= j < i ==> #[trigger] dst@[j] == sat_u64(old(dst)@[j] as int, src@[j] as int),
            forall|j: int| i <= j < dst@.len() ==> #[trigger] dst@[j] == old(dst)@[j],
        decreases n - i,
    {
        let v = dst[i].saturating_add(src[i]);
        dst.set(i, v);
        i += 1;
    }
}

fn add_u32(dst: &mut Vec<u32>, src: &Vec<u32>, n: usize)
    requires
        n <= old(dst)@.len(),
        n <= src@.len(),
    ensures
        final(dst)@.len() == old(dst)@.len(),
        forall|i: int| 0 <= i < n ==> #[trigger] final(dst)@[i] == sat_u32(old(dst)@[i] as int, src@[i] as int),
        forall|i: int| n <= i < old(dst)@.len() ==> #[trigger] final(dst)@[i] == old(dst)@[i],
{
    let mut i: usize = 0;
    while i < n
        invariant
            i <= n,
            n <= src@.len(),
            dst@.len() == old(dst)@.len(),
            n <= dst@.len(),
            forall|j: int| 0 <= j < i ==> #[trigger] dst@[j] == sat_u32(old(dst)@[j] as int, src@[j] as int),
            forall|j: int| i <= j < dst@.len() ==> #[trigger] dst@[j] == old(dst)@[j],
        decreases n - i,
    {
        let v = dst[i].saturating_add(src[i]);
        dst.set(i, v);
        i += 1;
    }
}

/// Adds the bins of `src` to `dst`, each saturating.
pub fn add_histogram(dst: &mut HistogramBins, src: &HistogramBins)
    requires
        old(dst).wf(),
        src.wf(),
    ensures
        final(dst).wf(),
        forall|i: int| 0 <= i < 256 ==> {
            &&& #[trigger] final(dst).y@[i] == sat_u64(old(dst).y@[i] as int, src.y@[i] as int)
            &&& final(dst).r@[i] == sat_u32(old(dst).r@[i] as int, src.r@[i] as int)
            &&& final(dst).g@[i] == sat_u32(old(dst).g@[i] as int, src.g@[i] as int)
            &&& final(dst).b@[i] == sat_u32(old(dst).b@[i] as int, src.b@[i] as int)
        },
{
    add_u64(&mut dst.y, &src.y, 256);
    add_u32(&mut dst.r, &src.r, 256);
    add_u32(&mut dst.g, &src.g, 256);
    add_u32(&mut dst.b, &src.b, 256);
}

/// Waveform counts per column and level.
#[derive(Debug)]
pub struct WaveformData {
    pub width: u32,
    pub bins: Vec<u32>,
    pub mode: WaveformMode,
}

/// Adds `src` to `dst` bin by bin, saturating; analyses of different sizes are not added.
pub fn add_waveform(dst: &mut WaveformData, src: &WaveformData)
    ensures
        final(dst).width == old(dst).width,
        final(dst).mode == old(dst).mode,
        final(dst).bins@.len() == old(dst).bins@.len(),
        (old(dst).width != src.width || old(dst).bins@.len() != src.bins@.len()) ==> final(dst).bins@ == old(dst).bins@,
        (old(dst).width == src.width && old(dst).bins@.len() == src.bins@.len()) ==> forall|i: int|
            0 <= i < old(dst).bins@.len() ==> #[trigger] final(dst).bins@[i] == sat_u32(old(dst).bins@[i] as int, src.bins@[i] as int),
{
    if dst.width != src.width || dst.bins.len() != src.bins.len() {
        return;
    }
    let n = src.bins.len();
    add_u32(&mut dst.bins, &src.bins, n);
}

/// Vectorscope density over its `size × size` grid.
#[derive(Debug)]
pub struct VectorscopeData {
    pub size: u32,
    pub density: Vec<u32>,
}

/// Adds `src` to `dst` cell by cell, saturating; grids of different sizes are not added.
pub fn add_vectorscope(dst: &mut VectorscopeData, src: &VectorscopeData)
    ensures
        final(dst).size == old(dst).size,
        final(dst).density@.len() == old(dst).density@.len(),
        old(dst).density@.len() != src.density@.len() ==> final(dst).density@ == old(dst).density@,
        old(dst).density@.len() == src.density@.len() ==> forall|i: int|
            0 <= i < old(dst).density@.len() ==> #[trigger] final(dst).density@[i] == sat_u32(old(dst).density@[i] as int, src.density@[i] as int),
{
    if dst.density.len() != src.density.len() {
        return;
    }
    let n = src.density.len();
    add_u32(&mut dst.density, &src.density, n);
}

/// The analysis of one sampled frame.
#[derive(Debug)]
pub enum FrameAnalysis {
    Histogram(HistogramBins),
    Waveform(WaveformData),
    Vectorscope(VectorscopeData),
}

pub open spec fn analysis_kind(a: FrameAnalysis) -> ScopeKind {
    match a {
        FrameAnalysis::Histogram(_) => ScopeKind::Histogram,
        FrameAnalysis::Waveform(_) => ScopeKind::Waveform,
        FrameAnalysis::Vectorscope(_) => ScopeKind::Vectorscope,
    }
}

/// `n` is the analysis `a` with `b` added: bin by bin, saturating, when they have the same
/// shape; `a` unchanged otherwise.
pub open spec fn summed(a: FrameAnalysis, b: FrameAnalysis, n: FrameAnalysis) -> bool {
    match (a, b, n) {
        (FrameAnalysis::Histogram(x), FrameAnalysis::Histogram(y), FrameAnalysis::Histogram(z)) => {
            &&& z.wf()
            &&& forall|i: int| 0 <= i < 256 ==> {
                &&& #[trigger] z.y@[i] == sat_u64(x.y@[i] as int, y.y@[i] as int)
                &&& z.r@[i] == sat_u32(x.r@[i] as int, y.r@[i] as int)
                &&& z.g@[i] == sat_u32(x.g@[i] as int, y.g@[i] as int)
                &&& z.b@[i] == sat_u32(x.b@[i] as int, y.b@[i] as int)
            }
        },
        (FrameAnalysis::Waveform(x), FrameAnalysis::Waveform(y), FrameAnalysis::Waveform(z)) => {
            &&& z.width == x.width && z.mode == x.mode && z.bins@.len() == x.bins@.len()
            &&& if x.width == y.width && x.bins@.len() == y.bins@.len() {
                forall|i: int| 0 <= i < x.bins@.len() ==> #[trigger] z.bins@[i] == sat_u32(x.bins@[i] as int, y.bins@[i] as int)
            } else {
                z.bins@ == x.bins@
            }
        },
        (FrameAnalysis::Vectorscope(x), FrameAnalysis::Vectorscope(y), FrameAnalysis::Vectorscope(z)) => {
            &&& z.size == x.size && z.density@.len() == x.density@.len()
            &&& if x.density@.len() == y.density@.len() {
                forall|i: int| 0 <= i < x.density@.len() ==> #[trigger] z.density@[i] == sat_u32(x.density@[i] as int, y.density@[i] as int)
            } else {
                z.density@ == x.density@
            }
        },
        _ => false,
    }
}

/// The sums of a finished aggregation, before normalisation for display.
#[derive(Debug)]
pub struct AccumulatedScope {
    pub kind: ScopeKind,
    pub sample_count: usize,
    pub skipped: usize,
    pub range: AggregateRange,
    pub data: FrameAnalysis,
}

/// Sums frame analyses of one scope kind over a time range, counting the frames analysed
/// and those skipped.
#[derive(Debug)]
pub struct AggregateAccumulator {
    kind: ScopeKind,
    options: ScopeOptions,
    acc: Option<FrameAnalysis>,
    sample_count: usize,
    skipped: usize,
}

impl AggregateAccumulator {
    pub closed spec fn kind_spec(&self) -> ScopeKind {
        self.kind
    }

    pub closed spec fn options_spec(&self) -> ScopeOptions {
        self.options
    }

    pub closed spec fn samples_spec(&self) -> nat {
        self.sample_count as nat
    }

    pub closed spec fn skipped_spec(&self) -> nat {
        self.skipped as nat
    }

    /// Whether some analysis has been summed.
    pub closed spec fn has_data(&self) -> bool {
        self.acc is Some
    }

    /// The sum so far, if any frame has been analysed.
    pub closed spec fn data_spec(&self) -> Option<FrameAnalysis> {
        self.acc
    }

    pub closed spec fn wf(&self) -> bool {
        &&& (self.acc matches Some(a) ==> analysis_kind(a) == self.kind)
        &&& (self.acc matches Some(FrameAnalysis::Histogram(h)) ==> h.wf())
        &&& (self.acc is Some <==> self.sample_count > 0)
    }

    pub fn new(kind: ScopeKind, options: ScopeOptions) -> (r: Self)
        ensures
            r.wf(),
            r.kind_spec() == kind,
            r.options_spec() == options,
            r.samples_spec() == 0,
            r.skipped_spec() == 0,
            r.data_spec() is None,
    {
        AggregateAccumulator { kind, options, acc: None, sample_count: 0, skipped: 0 }
    }

    /// A sampled frame that could not be read.
    pub fn note_skip(&mut self)
        requires
            old(self).skipped_spec() < usize::MAX,
        ensures
            final(self).skipped_spec() == old(self).skipped_spec() + 1,
            final(self).samples_spec() == old(self).samples_spec(),
            final(self).kind_spec() == old(self).kind_spec(),
            final(self).data_spec() == old(self).data_spec(),
            old(self).wf() ==> final(self).wf(),
            accumulator_step(*old(self), false, *final(self)),
    {
        self.skipped = self.skipped + 1;
    }

    /// Adds the analysis of one more frame: the first is kept, later ones are summed
    /// into it.
    pub fn push_analysis(&mut self, frame: FrameAnalysis)
        requires
            old(self).wf(),
            analysis_kind(frame) == old(self).kind_spec(),
            frame matches FrameAnalysis::Histogram(h) ==> h.wf(),
            old(self).samples_spec() < usize::MAX,
        ensures
            final(self).wf(),
            final(self).samples_spec() == old(self).samples_spec() + 1,
            final(self).skipped_spec() == old(self).skipped_spec(),
            final(self).kind_spec() == old(self).kind_spec(),
            final(self).options_spec() == old(self).options_spec(),
            accumulator_step(*old(self), true, *final(self)),
            match old(self).data_spec() {
                None => final(self).data_spec() == Some(frame),
                Some(a) => final(self).data_spec() matches Some(n) && summed(a, frame, n),
            },
    {
        let cur = self.acc.take();
        let next = match (cur, frame) {
            (None, f) => f,
            (Some(FrameAnalysis::Histogram(mut a)), FrameAnalysis::Histogram(b)) => {
                add_histogram(&mut a, &b);
                FrameAnalysis::Histogram(a)
            },
            (Some(FrameAnalysis::Waveform(mut a)), FrameAnalysis::Waveform(b)) => {
                add_waveform(&mut a, &b);
                FrameAnalysis::Waveform(a)
            },
            (Some(FrameAnalysis::Vectorscope(mut a)), FrameAnalysis::Vectorscope(b)) => {
                add_vectorscope(&mut a, &b);
                FrameAnalysis::Vectorscope(a)
            },
            (Some(a), _) => a,
        };
        self.acc = Some(next);
        self.sample_count = self.sample_count + 1;
    }

    pub fn sample_count(&self) -> (r: usize)
        ensures
            r == self.samples_spec(),
    {
        self.sample_count
    }

    pub fn skipped(&self) -> (r: usize)
        ensures
            r == self.skipped_spec(),
    {
        self.skipped
    }

    /// The sums over `range`; fails when no frame was analysed.
    pub fn finish(self, range: AggregateRange) -> (r: Result<AccumulatedScope, String>)
        requires
            self.wf(),
        ensures
            finish_post(self, range, r),
    {
        if self.sample_count == 0 {
            return Err(string_of("聚合失败：没有成功分析的帧"));
        }
        match self.acc {
            Some(data) => Ok(AccumulatedScope {
                kind: self.kind,
                sample_count: self.sample_count,
                skipped: self.skipped,
                range,
                data,
            }),
            None => Err(string_of("聚合失败：没有成功分析的帧")),
        }
    }
}

/// What finishing accumulator `a` over `range` returns: an error when no frame was
/// analysed, else the sums with the counts, kind and range.
pub open spec fn finish_post(a: AggregateAccumulator, range: AggregateRange, r: Result<AccumulatedScope, String>) -> bool {
    &&& (r is Err <==> a.samples_spec() == 0)
    &&& (r matches Err(m) ==> m@ == "聚合失败：没有成功分析的帧"@)
    &&& (r matches Ok(s) ==> {
        &&& s.kind == a.kind_spec()
        &&& s.sample_count == a.samples_spec()
        &&& s.skipped == a.skipped_spec()
        &&& s.range == range
        &&& analysis_kind(s.data) == a.kind_spec()
        &&& a.data_spec() == Some(s.data)
    })
}

/// One step of an aggregation from `a` to `b`: an analysed frame (`push`) or a skipped one.
pub open spec fn accumulator_step(a: AggregateAccumulator, push: bool, b: AggregateAccumulator) -> bool {
    &&& b.kind_spec() == a.kind_spec()
    &&& (a.wf() ==> b.wf())
    &&& if push {
        b.samples_spec() == a.samples_spec() + 1 && b.skipped_spec() == a.skipped_spec()
    } else {
        b.skipped_spec() == a.skipped_spec() + 1 && b.samples_spec() == a.samples_spec()
    }
}

/// How many of `steps` are analysed frames.
pub open spec fn pushes_in(steps: Seq<bool>) -> nat
    decreases steps.len(),
{
    if steps.len() == 0 {
        0
    } else {
        pushes_in(steps.drop_last()) + if steps.last() { 1nat } else { 0nat }
    }
}

proof fn lemma_trace_counts(states: Seq<AggregateAccumulator>, steps: Seq<bool>, k: int)
    requires
        states.len() == steps.len() + 1,
        states[0].samples_spec() == 0,
        states[0].skipped_spec() == 0,
        states[0].wf(),
        forall|i: int| 0 <= i < steps.len() ==> #[trigger] accumulator_step(states[i], steps[i], states[i + 1]),
        0 <= k <= steps.len(),
    ensures
        states[k].kind_spec() == states[0].kind_spec(),
        states[k].wf(),
        states[k].samples_spec() == pushes_in(steps.take(k)),
        states[k].samples_spec() + states[k].skipped_spec() == k,
    decreases k,
{
    if k > 0 {
        lemma_trace_counts(states, steps, k - 1);
        assert(steps.take(k).drop_last() =~= steps.take(k - 1));
        let j = k - 1;
        assert(accumulator_step(states[j], steps[j], states[j + 1]));
    } else {
        assert(steps.take(0).len() == 0);
    }
}

/// An aggregation that starts empty and takes a run of analysed and skipped frames
/// (`steps`, true for an analysed one) counts each: the finished scope has the start's
/// kind, as many samples as analysed frames and as many skipped as skipped ones, and
/// finishing fails exactly when no frame was analysed.
pub proof fn law_accumulator_counts(states: Seq<AggregateAccumulator>, steps: Seq<bool>, range: AggregateRange, r: Result<AccumulatedScope, String>)
    requires
        states.len() == steps.len() + 1,
        states[0].samples_spec() == 0,
        states[0].skipped_spec() == 0,
        states[0].wf(),
        forall|i: int| 0 <= i < steps.len() ==> #[trigger] accumulator_step(states[i], steps[i], states[i + 1]),
        finish_post(states.last(), range, r),
    ensures
        states.last().wf(),
        r is Err <==> pushes_in(steps) == 0,
        r matches Ok(s) ==> {
            &&& s.kind == states[0].kind_spec()
            &&& s.sample_count == pushes_in(steps)
            &&& s.skipped == steps.len() - pushes_in(steps)
            &&& s.range == range
        },
{
    lemma_trace_counts(states, steps, steps.len() as int);
    assert(steps.take(steps.len() as int) =~= steps);
}

/// Cache key of an aggregated scope.
#[derive(Debug, Clone, Copy, PartialEq, Eq, Structural)]
pub struct AggregateCacheKey {
    pub video_id: i64,
    pub start_ms: u64,
    pub end_ms: u64,
    pub kind: ScopeKind,
    pub histogram_mode: u8,
    pub histogram_scale: u8,
    pub waveform_mode: u8,
    pub vectorscope_75_box: bool,
    pub sample_n: usize,
    pub out_w: u32,
    pub out_h: u32,
}

impl AggregateCacheKey {
    pub fn from_parts(video_id: i64, range: AggregateRange, kind: ScopeKind, options: &ScopeOptions, sample_n: usize, out_w: u32, out_h: u32) -> (r: Self)
        ensures
            r == (AggregateCacheKey {
                video_id,
                start_ms: range.start_ms,
                end_ms: range.end_ms,
                kind,
                histogram_mode: histogram_mode_code(options.histogram_mode),
                histogram_scale: histogram_scale_code(options.histogram_scale),
                waveform_mode: waveform_mode_code(options.waveform_mode),
                vectorscope_75_box: options.vectorscope_75_box,
                sample_n,
                out_w,
                out_h,
            }),
    {
        AggregateCacheKey {
            video_id,
            start_ms: range.start_ms,
            end_ms: range.end_ms,
            kind,
            histogram_mode: histogram_mode_code_exec(options.histogram_mode),
            histogram_scale: histogram_scale_code_exec(options.histogram_scale),
            waveform_mode: waveform_mode_code_exec(options.waveform_mode),
            vectorscope_75_box: options.vectorscope_75_box,
            sample_n,
            out_w,
            out_h,
        }
    }
}


/// What a scope panel shows: the current frame, or frames gathered over a range.
#[derive(Debug, Clone, Copy, PartialEq, Eq, Structural)]
pub enum ScopeViewMode {
    Current,
    Aggregate,
}

impl Default for ScopeViewMode {
    fn default() -> (r: Self)
        ensures
            r == ScopeViewMode::Current,
    {
        ScopeViewMode::Current
    }
}

/// The range that aggregate scopes gather over: the whole video, or its in and out points.
#[derive(Debug, Clone, Copy, PartialEq, Eq, Structural)]
pub enum AggregateRangeMode {
    Full,
    InOut,
}

impl Default for AggregateRangeMode {
    fn default() -> (r: Self)
        ensures
            r == AggregateRangeMode::Full,
    {
        AggregateRangeMode::Full
    }
}

/// A scope drawn as RGBA bytes, row after row.
#[derive(Debug)]
pub struct ScopeRgba {
    pub width: u32,
    pub height: u32,
    pub rgba: Vec<u8>,
}


// ---------------------------------------------------------------------------
// Channel counts and peaks
// ---------------------------------------------------------------------------

/// How many of the first `n` pixels of the RGBA bytes `rgba` are not transparent and have
/// value `v` in channel `ch` (0 red, 1 green, 2 blue).
pub open spec fn channel_count(rgba: Seq<u8>, n: nat, ch: int, v: int) -> nat
    decreases n,
{
    if n == 0 {
        0
    } else {
        let k = n - 1;
        channel_count(rgba, (n - 1) as nat, ch, v) + if rgba[4 * k + 3] != 0 && rgba[4 * k + ch] == v { 1nat } else { 0nat }
    }
}

proof fn lemma_channel_count_bounded(rgba: Seq<u8>, n: nat, ch: int, v: int)
    ensures
        channel_count(rgba, n, ch, v) <= n,
    decreases n,
{
    if n > 0 {
        lemma_channel_count_bounded(rgba, (n - 1) as nat, ch, v);
    }
}

/// The counts of channel `ch` for the values under `c`, added up.
pub open spec fn values_sum(rgba: Seq<u8>, n: nat, ch: int, c: nat) -> nat
    decreases c,
{
    if c == 0 {
        0
    } else {
        values_sum(rgba, n, ch, (c - 1) as nat) + channel_count(rgba, n, ch, c - 1)
    }
}

proof fn lemma_values_sum_step(rgba: Seq<u8>, n: nat, ch: int, c: nat)
    requires
        n > 0,
    ensures
        values_sum(rgba, n, ch, c) == values_sum(rgba, (n - 1) as nat, ch, c) + if pixel_visible(rgba, n - 1)
            && rgba[4 * (n - 1) + ch] < c {
            1nat
        } else {
            0nat
        },
    decreases c,
{
    if c > 0 {
        lemma_values_sum_step(rgba, n, ch, (c - 1) as nat);
    }
}

proof fn lemma_values_sum_zero(rgba: Seq<u8>, ch: int, c: nat)
    ensures
        values_sum(rgba, 0, ch, c) == 0,
    decreases c,
{
    if c > 0 {
        lemma_values_sum_zero(rgba, ch, (c - 1) as nat);
    }
}

/// Each visible pixel counts once in each colour channel's histogram, at its value;
/// transparent pixels do not count.
pub proof fn law_histogram_counts_each_visible_pixel(rgba: Seq<u8>, n: nat, ch: int)
    ensures
        values_sum(rgba, n, ch, 256) == visible_pixels(rgba, n),
    decreases n,
{
    if n == 0 {
        lemma_values_sum_zero(rgba, ch, 256);
    } else {
        law_histogram_counts_each_visible_pixel(rgba, (n - 1) as nat, ch);
        lemma_values_sum_step(rgba, n, ch, 256);
    }
}

/// The weight, in 1024ths of a pixel, that one luma split `(bin, upper)` puts in bin `v`:
/// `1024 - upper` in `bin` and `upper` in the next one.
pub open spec fn split_weight(split: (u8, u16), v: int) -> nat {
    (if v == split.0 { (1024 - split.1) as nat } else { 0nat }) + (if v == split.0 + 1 { split.1 as nat } else { 0nat })
}

/// The luma weight that the visible pixels among the first `n` put in bin `v`, each pixel
/// `p` split as `luma[p]` says.
pub open spec fn luma_weight(rgba: Seq<u8>, luma: Seq<(u8, u16)>, n: nat, v: int) -> nat
    decreases n,
{
    if n == 0 {
        0
    } else {
        let k = n - 1;
        luma_weight(rgba, luma, (n - 1) as nat, v) + if rgba[4 * k + 3] != 0 {
            split_weight(luma[k], v)
        } else {
            0nat
        }
    }
}

/// A luma split that a histogram accepts: an upper share of at most 1024, and none above
/// the top bin.
pub open spec fn valid_split(split: (u8, u16)) -> bool {
    split.1 <= 1024 && (split.0 == 255 ==> split.1 == 0)
}

proof fn lemma_luma_weight_bounded(rgba: Seq<u8>, luma: Seq<(u8, u16)>, n: nat, v: int)
    requires
        forall|p: int| 0 <= p < n ==> valid_split(#[trigger] luma[p]),
    ensures
        luma_weight(rgba, luma, n, v) <= 1024 * n,
    decreases n,
{
    if n > 0 {
        lemma_luma_weight_bounded(rgba, luma, (n - 1) as nat, v);
        assert(valid_split(luma[n - 1]));
    }
}

/// The luma weights of bins under `c`, added up.
pub open spec fn luma_sum(rgba: Seq<u8>, luma: Seq<(u8, u16)>, n: nat, c: nat) -> nat
    decreases c,
{
    if c == 0 {
        0
    } else {
        luma_sum(rgba, luma, n, (c - 1) as nat) + luma_weight(rgba, luma, n, c - 1)
    }
}

pub open spec fn split_below(split: (u8, u16), c: nat) -> nat
    decreases c,
{
    if c == 0 {
        0
    } else {
        split_below(split, (c - 1) as nat) + split_weight(split, c - 1)
    }
}

proof fn lemma_split_below(split: (u8, u16), c: nat)
    requires
        split.1 <= 1024,
    ensures
        split_below(split, c) == (if split.0 < c { (1024 - split.1) as nat } else { 0nat }) + (if split.0 + 1 < c {
            split.1 as nat
        } else {
            0nat
        }),
    decreases c,
{
    if c > 0 {
        lemma_split_below(split, (c - 1) as nat);
    }
}

proof fn lemma_luma_sum_step(rgba: Seq<u8>, luma: Seq<(u8, u16)>, n: nat, c: nat)
    requires
        n > 0,
    ensures
        luma_sum(rgba, luma, n, c) == luma_sum(rgba, luma, (n - 1) as nat, c) + if rgba[4 * (n - 1) + 3] != 0 {
            split_below(luma[n - 1], c)
        } else {
            0nat
        },
    decreases c,
{
    if c > 0 {
        lemma_luma_sum_step(rgba, luma, n, (c - 1) as nat);
    }
}

proof fn lemma_luma_sum_zero(rgba: Seq<u8>, luma: Seq<(u8, u16)>, c: nat)
    ensures
        luma_sum(rgba, luma, 0, c) == 0,
    decreases c,
{
    if c > 0 {
        lemma_luma_sum_zero(rgba, luma, (c - 1) as nat);
    }
}

/// Each visible pixel puts a whole pixel's weight, 1024, into the luma bins, however its
/// luma is split; transparent pixels put none.
pub proof fn law_luma_weight_is_one_pixel_each(rgba: Seq<u8>, luma: Seq<(u8, u16)>, n: nat)
    requires
        forall|p: int| 0 <= p < n ==> valid_split(#[trigger] luma[p]),
    ensures
        luma_sum(rgba, luma, n, 256) == 1024 * visible_pixels(rgba, n),
    decreases n,
{
    if n == 0 {
        lemma_luma_sum_zero(rgba, luma, 256);
    } else {
        law_luma_weight_is_one_pixel_each(rgba, luma, (n - 1) as nat);
        lemma_luma_sum_step(rgba, luma, n, 256);
        assert(valid_split(luma[n - 1]));
        lemma_split_below(luma[n - 1], 256);
    }
}

/// The histogram of RGBA pixels: for each colour channel and value, how many visible
/// pixels (alpha not zero) have it; and the luma bins, soft-binned in 1024ths of a pixel.
/// The caller splits each pixel's Rec. 709 luma `y` into `(floor(y), round(fraction ×
/// 1024))`, or `(255, 0)` from 255 up; a visible pixel then adds `1024 - upper` to bin
/// `floor(y)` and `upper` to the next.
pub fn analyze_histogram(rgba: &[u8], luma: &[(u8, u16)]) -> (r: HistogramBins)
    requires
        rgba@.len() % 4 == 0,
        rgba@.len() / 4 <= u32::MAX,
        luma@.len() == rgba@.len() / 4,
        forall|p: int| 0 <= p < luma@.len() ==> valid_split(#[trigger] luma@[p]),
    ensures
        r.wf(),
        forall|v: int| 0 <= v < 256 ==> {
            &&& r.y@[v] == luma_weight(rgba@, luma@, (rgba@.len() / 4) as nat, v)
            &&& r.r@[v] == channel_count(rgba@, (rgba@.len() / 4) as nat, 0, v)
            &&& r.g@[v] == channel_count(rgba@, (rgba@.len() / 4) as nat, 1, v)
            &&& r.b@[v] == channel_count(rgba@, (rgba@.len() / 4) as nat, 2, v)
        },
{
    let mut bins = HistogramBins::empty();
    let n: usize = rgba.len() / 4;
    let mut i: usize = 0;
    let mut p: usize = 0;
    while i < n
        invariant
            n == rgba@.len() / 4,
            rgba@.len() % 4 == 0,
            n <= u32::MAX,
            luma@.len() == n,
            forall|q: int| 0 <= q < luma@.len() ==> valid_split(#[trigger] luma@[q]),
            i <= n,
            p == 4 * i,
            bins.wf(),
            forall|v: int| 0 <= v < 256 ==> {
                &&& bins.y@[v] == luma_weight(rgba@, luma@, i as nat, v)
                &&& bins.r@[v] == channel_count(rgba@, i as nat, 0, v)
                &&& bins.g@[v] == channel_count(rgba@, i as nat, 1, v)
                &&& bins.b@[v] == channel_count(rgba@, i as nat, 2, v)
            },
        decreases n - i,
    {
        proof {
            assert forall|ch: int, v: int| 0 <= ch < 3 && 0 <= v < 256 implies channel_count(rgba@, i as nat, ch, v) <= i by {
                lemma_channel_count_bounded(rgba@, i as nat, ch, v);
            }
            assert forall|v: int| 0 <= v < 256 implies luma_weight(rgba@, luma@, i as nat, v) <= 1024 * i by {
                lemma_luma_weight_bounded(rgba@, luma@, i as nat, v);
            }
        }
        let a = rgba[p + 3];
        if a != 0 {
            let rv = rgba[p] as usize;
            let gv = rgba[p + 1] as usize;
            let bv = rgba[p + 2] as usize;
            let x = bins.r[rv] + 1;
            bins.r.set(rv, x);
            let x = bins.g[gv] + 1;
            bins.g.set(gv, x);
            let x = bins.b[bv] + 1;
            bins.b.set(bv, x);
            let (lo, upper) = luma[i];
            proof {
                assert(valid_split(luma@[i as int]));
            }
            let lo = lo as usize;
            let y0 = bins.y[lo] + (1024 - upper as u64);
            bins.y.set(lo, y0);
            if lo < 255 {
                let y1 = bins.y[lo + 1] + upper as u64;
                bins.y.set(lo + 1, y1);
            }
        }
        proof {
            assert(4 * (i as int) + 3 == p + 3);
        }
        i += 1;
        p += 4;
    }
    bins
}

/// How many visible pixels among the first `n` fall on cell `cell` of a vectorscope
/// `size` cells wide, pixel `p` at column `xy[p].0` and row `xy[p].1`.
pub open spec fn scope_count(rgba: Seq<u8>, xy: Seq<(u32, u32)>, size: int, n: nat, cell: int) -> nat
    decreases n,
{
    if n == 0 {
        0
    } else {
        let p = n - 1;
        scope_count(rgba, xy, size, (n - 1) as nat, cell) + if pixel_visible(rgba, p) && xy[p].1 * size + xy[p].0
            == cell {
            1nat
        } else {
            0nat
        }
    }
}

proof fn lemma_scope_count_bounded(rgba: Seq<u8>, xy: Seq<(u32, u32)>, size: int, n: nat, cell: int)
    ensures
        scope_count(rgba, xy, size, n, cell) <= n,
    decreases n,
{
    if n > 0 {
        lemma_scope_count_bounded(rgba, xy, size, (n - 1) as nat, cell);
    }
}

/// The density of a vectorscope of RGBA pixels over its `256 × 256` grid: each visible
/// pixel counts once at the position `xy` gives for it, which the caller computes from
/// the pixel's Cb/Cr chroma.
pub fn analyze_vectorscope(rgba: &[u8], xy: &[(u32, u32)]) -> (r: VectorscopeData)
    requires
        rgba@.len() % 4 == 0,
        rgba@.len() / 4 <= u32::MAX,
        xy@.len() == rgba@.len() / 4,
        forall|p: int| 0 <= p < xy@.len() ==> (#[trigger] xy@[p]).0 < VECTOR_SIZE && xy@[p].1 < VECTOR_SIZE,
    ensures
        r.size == VECTOR_SIZE,
        r.density@.len() == VECTOR_SIZE * VECTOR_SIZE,
        forall|cell: int|
            0 <= cell < r.density@.len() ==> #[trigger] r.density@[cell] == scope_count(
                rgba@,
                xy@,
                VECTOR_SIZE as int,
                (rgba@.len() / 4) as nat,
                cell,
            ),
{
    let size: u32 = VECTOR_SIZE;
    let total: usize = (size as usize) * (size as usize);
    let mut density = zeros_u32(total);
    let n: usize = rgba.len() / 4;
    assert(rgba@.len() == 4 * n);
    let mut i: usize = 0;
    while i < n
        invariant
            n == rgba@.len() / 4,
            rgba@.len() == 4 * n,
            rgba@.len() <= usize::MAX,
            n <= u32::MAX,
            xy@.len() == n,
            forall|p: int| 0 <= p < xy@.len() ==> (#[trigger] xy@[p]).0 < VECTOR_SIZE && xy@[p].1 < VECTOR_SIZE,
            size == VECTOR_SIZE,
            total == VECTOR_SIZE * VECTOR_SIZE,
            i <= n,
            density@.len() == total,
            forall|cell: int|
                0 <= cell < total ==> #[trigger] density@[cell] == scope_count(rgba@, xy@, VECTOR_SIZE as int, i as nat, cell),
        decreases n - i,
    {
        proof {
            assert forall|cell: int| 0 <= cell < total implies #[trigger] density@[cell] <= i by {
                lemma_scope_count_bounded(rgba@, xy@, VECTOR_SIZE as int, i as nat, cell);
            }
        }
        if rgba[4 * i + 3] != 0 {
            let (x, y) = xy[i];
            proof {
                assert(xy@[i as int].0 < VECTOR_SIZE && xy@[i as int].1 < VECTOR_SIZE);
            }
            let c: usize = (y as usize) * 256 + (x as usize);
            let v = density[c] + 1;
            density.set(c, v);
        }
        i += 1;
    }
    VectorscopeData { size, density }
}

/// Each visible pixel counts once in a vectorscope; transparent pixels do not count.
pub proof fn law_vectorscope_counts_each_visible_pixel(rgba: Seq<u8>, xy: Seq<(u32, u32)>, n: nat)
    requires
        forall|p: int| 0 <= p < n ==> (#[trigger] xy[p]).0 < VECTOR_SIZE && xy[p].1 < VECTOR_SIZE,
    ensures
        scope_sum(rgba, xy, n, (VECTOR_SIZE * VECTOR_SIZE) as nat) == visible_pixels(rgba, n),
    decreases n,
{
    if n == 0 {
        lemma_scope_sum_zero(rgba, xy, (VECTOR_SIZE * VECTOR_SIZE) as nat);
    } else {
        law_vectorscope_counts_each_visible_pixel(rgba, xy, (n - 1) as nat);
        lemma_scope_sum_step(rgba, xy, n, (VECTOR_SIZE * VECTOR_SIZE) as nat);
        assert(xy[n - 1].0 < VECTOR_SIZE && xy[n - 1].1 < VECTOR_SIZE);
    }
}

/// The density of the first `c` cells of a vectorscope, added up.
pub open spec fn scope_sum(rgba: Seq<u8>, xy: Seq<(u32, u32)>, n: nat, c: nat) -> nat
    decreases c,
{
    if c == 0 {
        0
    } else {
        scope_sum(rgba, xy, n, (c - 1) as nat) + scope_count(rgba, xy, VECTOR_SIZE as int, n, c - 1)
    }
}

proof fn lemma_scope_sum_zero(rgba: Seq<u8>, xy: Seq<(u32, u32)>, c: nat)
    ensures
        scope_sum(rgba, xy, 0, c) == 0,
    decreases c,
{
    if c > 0 {
        lemma_scope_sum_zero(rgba, xy, (c - 1) as nat);
    }
}

proof fn lemma_scope_sum_step(rgba: Seq<u8>, xy: Seq<(u32, u32)>, n: nat, c: nat)
    requires
        n > 0,
    ensures
        scope_sum(rgba, xy, n, c) == scope_sum(rgba, xy, (n - 1) as nat, c) + if pixel_visible(rgba, n - 1) && xy[n
            - 1].1 * VECTOR_SIZE + xy[n - 1].0 < c {
            1nat
        } else {
            0nat
        },
    decreases c,
{
    if c > 0 {
        lemma_scope_sum_step(rgba, xy, n, (c - 1) as nat);
    }
}

/// The index of the last largest value of `s`, if `s` is not empty.
pub open spec fn last_max_index(s: Seq<u32>) -> Option<int>
    decreases s.len(),
{
    if s.len() == 0 {
        None
    } else {
        match last_max_index(s.drop_last()) {
            None => Some(s.len() - 1),
            Some(m) => if s.last() >= s[m] { Some(s.len() - 1) } else { Some(m) },
        }
    }
}

proof fn lemma_last_max_index_in_range(s: Seq<u32>)
    ensures
        last_max_index(s) matches Some(m) ==> 0 <= m < s.len(),
        s.len() > 0 ==> last_max_index(s) is Some,
    decreases s.len(),
{
    if s.len() > 0 {
        lemma_last_max_index_in_range(s.drop_last());
    }
}

/// Where the densest cell of a vectorscope is: the last cell with the largest count, as
/// `(column, row)` of a grid `size` cells wide; none when every cell is empty.
pub open spec fn peak_spec(density: Seq<u32>, size: u32) -> Option<(u32, u32)> {
    match last_max_index(density) {
        Some(m) => if density[m] > 0 { Some(((m % size as int) as u32, (m / size as int) as u32)) } else { None },
        None => None,
    }
}

pub fn peak_xy(data: &VectorscopeData) -> (r: Option<(u32, u32)>)
    requires
        data.size > 0,
        data.density@.len() <= u32::MAX,
    ensures
        r == peak_spec(data.density@, data.size),
{
    let d = &data.density;
    let mut best: usize = 0;
    let mut found = false;
    let mut i: usize = 0;
    while i < d.len()
        invariant
            i <= d@.len(),
            d@.len() <= u32::MAX,
            found <==> i > 0,
            found ==> last_max_index(d@.subrange(0, i as int)) == Some(best as int) && best < i,
        decreases d@.len() - i,
    {
        proof {
            let s = d@.subrange(0, i + 1);
            assert(s.drop_last() =~= d@.subrange(0, i as int));
            assert(s.last() == d@[i as int]);
            if found {
                assert(s[best as int] == d@[best as int]);
            }
        }
        if !found || d[i] >= d[best] {
            best = i;
        }
        found = true;
        i += 1;
    }
    proof {
        assert(d@.subrange(0, d@.len() as int) =~= d@);
        lemma_last_max_index_in_range(d@);
    }
    if !found {
        return None;
    }
    if d[best] == 0 {
        return None;
    }
    let idx = best as u32;
    Some((idx % data.size, idx / data.size))
}


/// Whether pixel `p` of an RGBA buffer is drawn: its alpha is not zero.
pub open spec fn pixel_visible(rgba: Seq<u8>, p: int) -> bool {
    rgba[4 * p + 3] != 0
}

/// The cell, in a luma waveform `w` columns wide, that pixel `p` of luma `level` counts
/// in: the pixel's column `p % w`, on row `255 - level` (high levels on top).
pub open spec fn luma_cell(level: u8, w: int, p: int) -> int {
    (255 - level) * w + p % w
}

/// The cell, in an RGB parade `3 * w` columns wide, that channel `ch` of pixel `p`
/// counts in: the pixel's column shifted by `ch * w`, on row `255 - value`.
pub open spec fn parade_cell(rgba: Seq<u8>, w: int, p: int, ch: int) -> int {
    (255 - rgba[4 * p + ch]) * (3 * w) + p % w + ch * w
}

pub open spec fn hit(c: int, cell: int) -> nat {
    if c == cell { 1 } else { 0 }
}

/// How many counts the first `n` pixels put in `cell` of a waveform `w` pixels wide.
/// Each visible pixel adds one to its luma cell (its luma taken from `levels`), or, in
/// a parade, one to the cell of each of its three colour channels.
pub open spec fn waveform_count(rgba: Seq<u8>, levels: Seq<u8>, w: int, mode: WaveformMode, n: nat, cell: int) -> nat
    decreases n,
{
    if n == 0 {
        0
    } else {
        let p = n - 1;
        let before = waveform_count(rgba, levels, w, mode, (n - 1) as nat, cell);
        if !pixel_visible(rgba, p) {
            before
        } else {
            match mode {
                WaveformMode::Luma => before + hit(luma_cell(levels[p], w, p), cell),
                WaveformMode::RgbParade => before + hit(parade_cell(rgba, w, p, 0), cell) + hit(
                    parade_cell(rgba, w, p, 1),
                    cell,
                ) + hit(parade_cell(rgba, w, p, 2), cell),
            }
        }
    }
}

/// The columns of a waveform of an image `width` pixels wide (an empty image counts as
/// one column wide).
pub open spec fn waveform_columns(width: u32, mode: WaveformMode) -> int {
    let w: int = if width == 0 { 1 } else { width as int };
    match mode {
        WaveformMode::Luma => w,
        WaveformMode::RgbParade => 3 * w,
    }
}

proof fn lemma_parade_cell_shape(rgba: Seq<u8>, w: int, p: int, ch: int)
    requires
        w > 0,
        p >= 0,
        0 <= ch < 3,
        0 <= 4 * p + ch < rgba.len(),
    ensures
        parade_cell(rgba, w, p, ch) == (3 * (255 - rgba[4 * p + ch]) + ch) * w + p % w,
        0 <= parade_cell(rgba, w, p, ch) < 256 * (3 * w),
{
    let v = rgba[4 * p + ch] as int;
    let x = p % w;
    assert((255 - v) * (3 * w) + ch * w == (3 * (255 - v) + ch) * w) by (nonlinear_arith);
    let k = 3 * (255 - v) + ch;
    assert(0 <= k <= 767);
    assert(0 <= k * w <= 767 * w) by (nonlinear_arith)
        requires
            0 <= k <= 767,
            w > 0,
    ;
}

proof fn lemma_parade_cells_differ(rgba: Seq<u8>, w: int, p: int, a: int, b: int)
    requires
        w > 0,
        p >= 0,
        0 <= a < b < 3,
        4 * p + 2 < rgba.len(),
    ensures
        parade_cell(rgba, w, p, a) != parade_cell(rgba, w, p, b),
{
    lemma_parade_cell_shape(rgba, w, p, a);
    lemma_parade_cell_shape(rgba, w, p, b);
    let ka = 3 * (255 - rgba[4 * p + a]) + a;
    let kb = 3 * (255 - rgba[4 * p + b]) + b;
    assert(ka != kb);
    assert(ka * w != kb * w) by (nonlinear_arith)
        requires
            ka != kb,
            w > 0,
    ;
}

proof fn lemma_luma_cell_in_range(level: u8, w: int, p: int)
    requires
        w > 0,
        p >= 0,
    ensures
        0 <= luma_cell(level, w, p) < 256 * w,
{
    let r = 255 - level as int;
    assert(0 <= r * w <= 255 * w) by (nonlinear_arith)
        requires
            0 <= r <= 255,
            w > 0,
    ;
}

proof fn lemma_waveform_count_bounded(rgba: Seq<u8>, levels: Seq<u8>, w: int, mode: WaveformMode, n: nat, cell: int)
    requires
        w > 0,
        4 * n <= rgba.len(),
    ensures
        waveform_count(rgba, levels, w, mode, n, cell) <= n,
    decreases n,
{
    if n > 0 {
        let p = n - 1;
        lemma_waveform_count_bounded(rgba, levels, w, mode, (n - 1) as nat, cell);
        lemma_parade_cells_differ(rgba, w, p, 0, 1);
        lemma_parade_cells_differ(rgba, w, p, 0, 2);
        lemma_parade_cells_differ(rgba, w, p, 1, 2);
    }
}

/// The counts of the first `c` cells of a waveform, added up.
pub open spec fn cells_sum(rgba: Seq<u8>, levels: Seq<u8>, w: int, mode: WaveformMode, n: nat, c: nat) -> nat
    decreases c,
{
    if c == 0 {
        0
    } else {
        cells_sum(rgba, levels, w, mode, n, (c - 1) as nat) + waveform_count(rgba, levels, w, mode, n, c - 1)
    }
}

/// How many of the first `n` pixels are visible.
pub open spec fn visible_pixels(rgba: Seq<u8>, n: nat) -> nat
    decreases n,
{
    if n == 0 {
        0
    } else {
        visible_pixels(rgba, (n - 1) as nat) + if pixel_visible(rgba, n - 1) {
            1nat
        } else {
            0
        }
    }
}

pub open spec fn below(c: int, limit: int) -> nat {
    if c < limit { 1 } else { 0 }
}

/// The counts that pixel `p` puts in cells under `limit`.
pub open spec fn pixel_hits_below(rgba: Seq<u8>, levels: Seq<u8>, w: int, mode: WaveformMode, p: int, limit: int) -> nat {
    if !pixel_visible(rgba, p) {
        0
    } else {
        match mode {
            WaveformMode::Luma => below(luma_cell(levels[p], w, p), limit),
            WaveformMode::RgbParade => below(parade_cell(rgba, w, p, 0), limit) + below(parade_cell(rgba, w, p, 1), limit)
                + below(parade_cell(rgba, w, p, 2), limit),
        }
    }
}

proof fn lemma_cells_sum_step(rgba: Seq<u8>, levels: Seq<u8>, w: int, mode: WaveformMode, n: nat, c: nat)
    requires
        n > 0,
        w > 0,
        4 * n <= rgba.len(),
    ensures
        cells_sum(rgba, levels, w, mode, n, c) == cells_sum(rgba, levels, w, mode, (n - 1) as nat, c) + pixel_hits_below(
            rgba,
            levels,
            w,
            mode,
            n - 1,
            c as int,
        ),
    decreases c,
{
    let p = n - 1;
    lemma_luma_cell_in_range(levels[p], w, p);
    lemma_parade_cell_shape(rgba, w, p, 0);
    lemma_parade_cell_shape(rgba, w, p, 1);
    lemma_parade_cell_shape(rgba, w, p, 2);
    if c > 0 {
        lemma_cells_sum_step(rgba, levels, w, mode, n, (c - 1) as nat);
    }
}

/// Every visible pixel counts once in a luma waveform, and three times, once per colour
/// channel, in a parade; transparent pixels do not count.
pub proof fn law_waveform_counts_each_visible_pixel(rgba: Seq<u8>, levels: Seq<u8>, width: u32, mode: WaveformMode, n: nat)
    requires
        4 * n <= rgba.len(),
    ensures
        cells_sum(
            rgba,
            levels,
            (if width == 0 { 1 } else { width as int }),
            mode,
            n,
            (256 * waveform_columns(width, mode)) as nat,
        ) == (if mode == WaveformMode::Luma { 1nat } else { 3nat }) * visible_pixels(rgba, n),
    decreases n,
{
    let w: int = if width == 0 { 1 } else { width as int };
    let total = (256 * waveform_columns(width, mode)) as nat;
    if n == 0 {
        lemma_cells_sum_zero(rgba, levels, w, mode, total);
    } else {
        let p = n - 1;
        law_waveform_counts_each_visible_pixel(rgba, levels, width, mode, (n - 1) as nat);
        lemma_cells_sum_step(rgba, levels, w, mode, n, total);
        lemma_luma_cell_in_range(levels[p], w, p);
        lemma_parade_cell_shape(rgba, w, p, 0);
        lemma_parade_cell_shape(rgba, w, p, 1);
        lemma_parade_cell_shape(rgba, w, p, 2);
    }
}

proof fn lemma_cells_sum_zero(rgba: Seq<u8>, levels: Seq<u8>, w: int, mode: WaveformMode, c: nat)
    ensures
        cells_sum(rgba, levels, w, mode, 0, c) == 0,
    decreases c,
{
    if c > 0 {
        lemma_cells_sum_zero(rgba, levels, w, mode, (c - 1) as nat);
    }
}

/// A waveform of an RGBA image `width` pixels wide, rows one after another. A visible
/// pixel (alpha not zero) counts once in the column of its position and the row of its
/// level, `255 - level` from the top: in luma mode at the level that `levels` gives for
/// it, which the caller computes with the Rec. 709 weights; in parade mode once for each
/// colour channel, the red, green and blue columns side by side.
pub fn analyze_waveform(width: u32, rgba: &[u8], levels: &[u8], mode: WaveformMode) -> (r: WaveformData)
    requires
        rgba@.len() % 4 == 0,
        rgba@.len() / 4 <= u32::MAX,
        mode == WaveformMode::Luma ==> levels@.len() == rgba@.len() / 4,
        256 * waveform_columns(width, mode) <= u32::MAX,
    ensures
        r.mode == mode,
        r.width == waveform_columns(width, mode),
        r.bins@.len() == 256 * r.width,
        forall|cell: int|
            0 <= cell < r.bins@.len() ==> #[trigger] r.bins@[cell] == waveform_count(
                rgba@,
                levels@,
                (if width == 0 { 1 } else { width as int }),
                mode,
                (rgba@.len() / 4) as nat,
                cell,
            ),
{
    let w: u32 = if width == 0 { 1 } else { width };
    let cols: u32 = match mode {
        WaveformMode::Luma => w,
        WaveformMode::RgbParade => 3 * w,
    };
    let total: usize = 256 * (cols as usize);
    let mut bins = zeros_u32(total);
    let n: usize = rgba.len() / 4;
    let wz: usize = w as usize;
    let ghost wi: int = w as int;
    assert(rgba@.len() == 4 * n);
    let mut i: usize = 0;
    while i < n
        invariant
            n == rgba@.len() / 4,
            rgba@.len() == 4 * n,
            rgba@.len() <= usize::MAX,
            n <= u32::MAX,
            mode == WaveformMode::Luma ==> levels@.len() == n,
            wi == w,
            wz == w,
            w > 0,
            256 * cols <= u32::MAX,
            cols == waveform_columns(width, mode),
            wi == (if width == 0 { 1 } else { width as int }),
            total == 256 * cols,
            i <= n,
            bins@.len() == total,
            forall|cell: int|
                0 <= cell < total ==> #[trigger] bins@[cell] == waveform_count(rgba@, levels@, wi, mode, i as nat, cell),
        decreases n - i,
    {
        let ghost before = bins@;
        proof {
            assert forall|cell: int| 0 <= cell < total implies #[trigger] before[cell] <= i by {
                lemma_waveform_count_bounded(rgba@, levels@, wi, mode, i as nat, cell);
            }
        }
        let x: usize = i % wz;
        if rgba[4 * i + 3] != 0 {
            match mode {
                WaveformMode::Luma => {
                    let lv = levels[i];
                    proof {
                        lemma_luma_cell_in_range(lv, wi, i as int);
                    }
                    let c: usize = ((255 - lv) as usize) * wz + x;
                    let v = bins[c] + 1;
                    bins.set(c, v);
                    proof {
                        assert(c == luma_cell(levels@[i as int], wi, i as int));
                        assert forall|cell: int| 0 <= cell < total implies #[trigger] bins@[cell] == waveform_count(
                            rgba@,
                            levels@,
                            wi,
                            mode,
                            (i + 1) as nat,
                            cell,
                        ) by {
                            assert(waveform_count(rgba@, levels@, wi, mode, (i + 1) as nat, cell) == waveform_count(
                                rgba@,
                                levels@,
                                wi,
                                mode,
                                i as nat,
                                cell,
                            ) + hit(luma_cell(levels@[i as int], wi, i as int), cell));
                        }
                    }
                },
                WaveformMode::RgbParade => {
                    proof {
                        lemma_parade_cell_shape(rgba@, wi, i as int, 0);
                        lemma_parade_cell_shape(rgba@, wi, i as int, 1);
                        lemma_parade_cell_shape(rgba@, wi, i as int, 2);
                        lemma_parade_cells_differ(rgba@, wi, i as int, 0, 1);
                        lemma_parade_cells_differ(rgba@, wi, i as int, 0, 2);
                        lemma_parade_cells_differ(rgba@, wi, i as int, 1, 2);
                    }
                    let pw: usize = 3 * wz;
                    let c0: usize = ((255 - rgba[4 * i]) as usize) * pw + x;
                    let c1: usize = ((255 - rgba[4 * i + 1]) as usize) * pw + x + wz;
                    let c2: usize = ((255 - rgba[4 * i + 2]) as usize) * pw + x + 2 * wz;
                    proof {
                        assert(c0 == parade_cell(rgba@, wi, i as int, 0));
                        assert(c1 == parade_cell(rgba@, wi, i as int, 1));
                        assert(c2 == parade_cell(rgba@, wi, i as int, 2));
                    }
                    let v0 = bins[c0] + 1;
                    bins.set(c0, v0);
                    let v1 = bins[c1] + 1;
                    bins.set(c1, v1);
                    let v2 = bins[c2] + 1;
                    bins.set(c2, v2);
                    proof {
                        assert forall|cell: int| 0 <= cell < total implies #[trigger] bins@[cell] == waveform_count(
                            rgba@,
                            levels@,
                            wi,
                            mode,
                            (i + 1) as nat,
                            cell,
                        ) by {
                            assert(waveform_count(rgba@, levels@, wi, mode, (i + 1) as nat, cell) == waveform_count(
                                rgba@,
                                levels@,
                                wi,
                                mode,
                                i as nat,
                                cell,
                            ) + hit(c0 as int, cell) + hit(c1 as int, cell) + hit(c2 as int, cell));
                        }
                    }
                },
            }
        } else {
            proof {
                assert forall|cell: int| 0 <= cell < total implies #[trigger] bins@[cell] == waveform_count(
                    rgba@,
                    levels@,
                    wi,
                    mode,
                    (i + 1) as nat,
                    cell,
                ) by {
                    assert(!pixel_visible(rgba@, i as int));
                }
            }
        }
        i += 1;
    }
    WaveformData { width: cols, bins, mode }
}

} // verus!
