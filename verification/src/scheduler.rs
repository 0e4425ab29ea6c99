//! Batch conversion planning: the tasks, how many run at once, and the report of a run.
use vstd::prelude::*;

use crate::paths::{extension, extension_of};
use crate::text::{chars_of, chars_of_string, eq_str, lower, lower_vec};
use crate::ui::{FailureRecord, ProcessReport};

verus! {

/// Image formats that a conversion can read or write.
#[derive(Debug, Clone, Copy, PartialEq, Eq, Structural)]
pub enum ImageFormat {
    Jpeg,
    Png,
    WebP,
    Gif,
    Bmp,
    Tiff,
}

/// The format that a lower-cased name or extension stands for.
pub open spec fn format_named(s: Seq<char>) -> Option<ImageFormat> {
    if s == "jpg"@ || s == "jpeg"@ {
        Some(ImageFormat::Jpeg)
    } else if s == "png"@ {
        Some(ImageFormat::Png)
    } else if s == "webp"@ {
        Some(ImageFormat::WebP)
    } else if s == "gif"@ {
        Some(ImageFormat::Gif)
    } else if s == "bmp"@ {
        Some(ImageFormat::Bmp)
    } else if s == "tiff"@ || s == "tif"@ {
        Some(ImageFormat::Tiff)
    } else {
        None
    }
}

pub fn format_named_exec(s: &Vec<char>) -> (r: Option<ImageFormat>)
    ensures
        r == format_named(s@),
{
    if eq_str(s, "jpg") || eq_str(s, "jpeg") {
        Some(ImageFormat::Jpeg)
    } else if eq_str(s, "png") {
        Some(ImageFormat::Png)
    } else if eq_str(s, "webp") {
        Some(ImageFormat::WebP)
    } else if eq_str(s, "gif") {
        Some(ImageFormat::Gif)
    } else if eq_str(s, "bmp") {
        Some(ImageFormat::Bmp)
    } else if eq_str(s, "tiff") || eq_str(s, "tif") {
        Some(ImageFormat::Tiff)
    } else {
        None
    }
}

impl ImageFormat {
    /// The format of a file extension, in any letter case.
    pub fn from_extension(ext: &str) -> (r: Option<ImageFormat>)
        ensures
            r == format_named(lower(ext@)),
    {
        let c = chars_of(ext);
        format_named_exec(&lower_vec(&c))
    }
}

/// The box an image is scaled into: a width, a height, or both.
#[derive(Debug, Clone, Copy, PartialEq, Eq, Structural)]
pub struct ResizeOptions {
    pub width: Option<u32>,
    pub height: Option<u32>,
}

/// One file to convert, with the settings it overrides for itself (a thumbnail's size, a
/// reviewed image's format and quality).
#[derive(Debug)]
pub struct ConversionTask {
    pub input_path: String,
    pub output_path: String,
    pub input_size: u64,
    pub source_format: Option<ImageFormat>,
    pub resize_override: Option<ResizeOptions>,
    pub format_override: Option<ImageFormat>,
    pub quality_override: Option<u8>,
}

impl ConversionTask {
    /// A task with the source format taken from the input's extension and no overrides.
    pub fn new(input_path: String, output_path: String, input_size: u64) -> (r: Self)
        ensures
            r.input_path == input_path,
            r.output_path == output_path,
            r.input_size == input_size,
            r.source_format == (match extension_of(input_path@) {
                Some(e) => format_named(lower(e)),
                None => None,
            }),
            r.resize_override is None,
            r.format_override is None,
            r.quality_override is None,
    {
        let source_format = match extension(input_path.as_str()) {
            Some(e) => ImageFormat::from_extension(e.as_str()),
            None => None,
        };
        ConversionTask {
            input_path,
            output_path,
            input_size,
            source_format,
            resize_override: None,
            format_override: None,
            quality_override: None,
        }
    }
}

/// At most one worker per batch once the largest input reaches 128 MiB, at most two from
/// 32 MiB on, otherwise the configured limit (taken as at least one); a batch of at most one
/// task runs alone.
pub open spec fn concurrency_limit(configured: int, max_input_bytes: int, task_count: int) -> int {
    let c = if configured < 1 { 1 } else { configured };
    let by_size = if max_input_bytes >= 128 * 1024 * 1024 {
        1
    } else if max_input_bytes >= 32 * 1024 * 1024 {
        2
    } else {
        c
    };
    if task_count <= 1 {
        1
    } else if c < by_size {
        c
    } else {
        by_size
    }
}

/// Number of concurrent workers for a batch of `task_count` tasks whose largest input is
/// `max_input_bytes` bytes, given a configured limit.
pub fn effective_concurrency(configured: usize, max_input_bytes: u64, task_count: usize) -> (r: usize)
    ensures
        r == concurrency_limit(configured as int, max_input_bytes as int, task_count as int),
        1 <= r,
        r <= configured || configured == 0,
{
    let configured = if configured < 1 { 1 } else { configured };
    if task_count <= 1 {
        return 1;
    }
    let by_size: usize = if max_input_bytes >= 128 * 1024 * 1024 {
        1
    } else if max_input_bytes >= 32 * 1024 * 1024 {
        2
    } else {
        configured
    };
    if configured < by_size { configured } else { by_size }
}

/// How one task of a run ended: the output size, or the error.
#[derive(Debug)]
pub struct TaskOutcome {
    pub input_path: String,
    pub input_size: u64,
    pub result: Result<u64, String>,
}

pub open spec fn succeeded(o: TaskOutcome) -> bool {
    o.result is Ok
}

/// Number of successful outcomes among the first `n`.
pub open spec fn count_ok(s: Seq<TaskOutcome>) -> nat
    decreases s.len(),
{
    if s.len() == 0 {
        0
    } else {
        count_ok(s.drop_last()) + if s.last().result is Ok { 1nat } else { 0nat }
    }
}

/// Input bytes of the successful outcomes.
pub open spec fn ok_input_bytes(s: Seq<TaskOutcome>) -> nat
    decreases s.len(),
{
    if s.len() == 0 {
        0
    } else {
        ok_input_bytes(s.drop_last()) + if s.last().result is Ok { s.last().input_size as nat } else { 0nat }
    }
}

/// Output bytes of the successful outcomes.
pub open spec fn ok_output_bytes(s: Seq<TaskOutcome>) -> nat
    decreases s.len(),
{
    if s.len() == 0 {
        0
    } else {
        ok_output_bytes(s.drop_last()) + match s.last().result {
            Ok(n) => n as nat,
            Err(_) => 0nat,
        }
    }
}

/// The failure records of the failed outcomes, in order.
pub open spec fn failures_of(s: Seq<TaskOutcome>) -> Seq<(Seq<char>, Seq<char>)>
    decreases s.len(),
{
    if s.len() == 0 {
        seq![]
    } else {
        failures_of(s.drop_last()) + match s.last().result {
            Ok(_) => Seq::<(Seq<char>, Seq<char>)>::empty(),
            Err(e) => seq![(s.last().input_path@, e@)],
        }
    }
}

pub open spec fn failure_views(f: Seq<FailureRecord>) -> Seq<(Seq<char>, Seq<char>)> {
    Seq::new(f.len(), |i: int| (f[i].path@, f[i].error@))
}

/// The report of a run that scanned `scanned` files, skipped `skipped` unchanged ones, and
/// ended its tasks with `outcomes`.
pub fn summarize_run(scanned: usize, skipped: usize, total: usize, outcomes: &Vec<TaskOutcome>, elapsed_ms: u64, cancelled: bool) -> (r: ProcessReport)
    requires
        ok_input_bytes(outcomes@) <= u64::MAX,
        ok_output_bytes(outcomes@) <= u64::MAX,
    ensures
        r.scanned == scanned,
        r.skipped == skipped,
        r.total == total,
        r.successes == count_ok(outcomes@),
        failure_views(r.failures@) == failures_of(outcomes@),
        r.elapsed_ms == elapsed_ms,
        r.total_input_bytes == ok_input_bytes(outcomes@),
        r.total_output_bytes == ok_output_bytes(outcomes@),
        r.cancelled == cancelled,
{
    let mut successes: usize = 0;
    let mut failures: Vec<FailureRecord> = Vec::new();
    let mut input: u64 = 0;
    let mut output: u64 = 0;
    let mut i: usize = 0;
    while i < outcomes.len()
        invariant
            i <= outcomes@.len(),
            ok_input_bytes(outcomes@) <= u64::MAX,
            ok_output_bytes(outcomes@) <= u64::MAX,
            successes == count_ok(outcomes@.subrange(0, i as int)),
            input == ok_input_bytes(outcomes@.subrange(0, i as int)),
            output == ok_output_bytes(outcomes@.subrange(0, i as int)),
            failure_views(failures@) == failures_of(outcomes@.subrange(0, i as int)),
        decreases outcomes@.len() - i,
    {
        let ghost pre = outcomes@.subrange(0, i as int);
        let ghost next = outcomes@.subrange(0, i + 1);
        proof {
            assert(next.drop_last() =~= pre);
            lemma_sums_prefix(outcomes@, i + 1);
            assert(count_ok(next) <= i + 1) by {
                lemma_count_ok_le(next);
            }
        }
        let o = &outcomes[i];
        match &o.result {
            Ok(n) => {
                successes = successes + 1;
                input = input + o.input_size;
                output = output + *n;
            },
            Err(e) => {
                failures.push(FailureRecord { path: o.input_path.clone(), error: e.clone() });
                proof {
                    assert(failure_views(failures@) =~= failure_views(old_failures(failures@)) + seq![(o.input_path@, e@)]);
                }
            },
        }
        i += 1;
        proof {
            assert(failure_views(failures@) =~= failures_of(next));
        }
    }
    proof {
        assert(outcomes@.subrange(0, i as int) =~= outcomes@);
    }
    ProcessReport {
        scanned,
        skipped,
        total,
        successes,
        failures,
        elapsed_ms,
        total_input_bytes: input,
        total_output_bytes: output,
        cancelled,
    }
}

pub open spec fn old_failures(f: Seq<FailureRecord>) -> Seq<FailureRecord> {
    f.drop_last()
}

proof fn lemma_count_ok_le(s: Seq<TaskOutcome>)
    ensures
        count_ok(s) <= s.len(),
    decreases s.len(),
{
    if s.len() > 0 {
        lemma_count_ok_le(s.drop_last());
    }
}

proof fn lemma_sums_prefix(s: Seq<TaskOutcome>, n: int)
    requires
        0 <= n <= s.len(),
    ensures
        ok_input_bytes(s.subrange(0, n)) <= ok_input_bytes(s),
        ok_output_bytes(s.subrange(0, n)) <= ok_output_bytes(s),
    decreases s.len() - n,
{
    if n < s.len() {
        lemma_sums_prefix(s, n + 1);
        assert(s.subrange(0, n + 1).drop_last() =~= s.subrange(0, n));
    } else {
        assert(s.subrange(0, n) =~= s);
    }
}

} // verus!
