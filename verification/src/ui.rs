//! Progress counters, the report of a batch run, and the environment diagnosis.
use vstd::prelude::*;

use crate::text::{
    before_char, before_char_vec, chars_of, chars_of_string, decimal, has_char, has_char_exec, push_all,
    push_decimal, push_signed, push_str, signed_decimal, string_from_chars, string_of,
};

verus! {

/// One input that failed, and why.
#[derive(Debug)]
pub struct FailureRecord {
    pub path: String,
    pub error: String,
}

impl Clone for FailureRecord {
    fn clone(&self) -> (r: Self)
        ensures
            r == *self,
    {
        FailureRecord { path: self.path.clone(), error: self.error.clone() }
    }
}

/// Counts of a batch run. Durations are in milliseconds.
#[derive(Debug)]
pub struct ProcessReport {
    pub scanned: usize,
    pub skipped: usize,
    pub total: usize,
    pub successes: usize,
    pub failures: Vec<FailureRecord>,
    pub elapsed_ms: u64,
    pub total_input_bytes: u64,
    pub total_output_bytes: u64,
    pub cancelled: bool,
}

/// Progress that a window polls: tasks done of how many, and the bytes read and written.
#[derive(Debug)]
pub struct GuiProgress {
    pub completed: usize,
    pub total: usize,
    pub current_file: String,
    pub input_bytes: u64,
    pub output_bytes: u64,
}

/// The byte counters of `b` are those of `a` after one more task with `sizes`: a
/// successful task adds its input and output sizes, wrapping at 2^64.
pub open spec fn bytes_after_inc(a: GuiProgress, sizes: Option<(u64, u64)>, b: GuiProgress) -> bool {
    &&& b.input_bytes == (match sizes {
        Some((i, o)) => (a.input_bytes + i) % (u64::MAX as int + 1),
        None => a.input_bytes as int,
    })
    &&& b.output_bytes == (match sizes {
        Some((i, o)) => (a.output_bytes + o) % (u64::MAX as int + 1),
        None => a.output_bytes as int,
    })
}

/// The input (`out == false`) or output (`out == true`) sizes of the first `n` tasks of
/// `incs`, added up.
pub open spec fn size_sum(incs: Seq<Option<(u64, u64)>>, n: nat, out: bool) -> nat
    decreases n,
{
    if n == 0 {
        0
    } else {
        size_sum(incs, (n - 1) as nat, out) + match incs[n - 1] {
            Some((i, o)) => if out { o as nat } else { i as nat },
            None => 0nat,
        }
    }
}

proof fn lemma_size_sum_mono(incs: Seq<Option<(u64, u64)>>, m: nat, n: nat, out: bool)
    requires
        m <= n,
    ensures
        size_sum(incs, m, out) <= size_sum(incs, n, out),
    decreases n - m,
{
    if m < n {
        lemma_size_sum_mono(incs, m, (n - 1) as nat, out);
    }
}

/// Bytes saved, as [`GuiProgress::saved_bytes`] gives them.
pub open spec fn saved_of(p: GuiProgress) -> int {
    if p.input_bytes >= p.output_bytes { p.input_bytes - p.output_bytes } else { 0 }
}

/// From a fresh progress, after the tasks `incs` (`states[k + 1]` being `states[k]` after
/// `inc(incs[k])`), the bytes saved are the total input size minus the total output size,
/// not below zero, as long as both totals fit in 64 bits.
pub proof fn law_saved_bytes_over_tasks(states: Seq<GuiProgress>, incs: Seq<Option<(u64, u64)>>)
    requires
        states.len() == incs.len() + 1,
        states[0].input_bytes == 0,
        states[0].output_bytes == 0,
        forall|k: int| 0 <= k < incs.len() ==> bytes_after_inc(#[trigger] states[k], incs[k], states[k + 1]),
        size_sum(incs, incs.len(), false) <= u64::MAX,
        size_sum(incs, incs.len(), true) <= u64::MAX,
    ensures
        states.last().input_bytes == size_sum(incs, incs.len(), false),
        states.last().output_bytes == size_sum(incs, incs.len(), true),
        saved_of(states.last()) == (if size_sum(incs, incs.len(), false) >= size_sum(incs, incs.len(), true) {
            size_sum(incs, incs.len(), false) - size_sum(incs, incs.len(), true)
        } else {
            0
        }),
{
    lemma_bytes_prefix(states, incs, incs.len());
}

proof fn lemma_bytes_prefix(states: Seq<GuiProgress>, incs: Seq<Option<(u64, u64)>>, k: nat)
    requires
        k <= incs.len(),
        states.len() == incs.len() + 1,
        states[0].input_bytes == 0,
        states[0].output_bytes == 0,
        forall|j: int| 0 <= j < incs.len() ==> bytes_after_inc(#[trigger] states[j], incs[j], states[j + 1]),
        size_sum(incs, incs.len(), false) <= u64::MAX,
        size_sum(incs, incs.len(), true) <= u64::MAX,
    ensures
        states[k as int].input_bytes == size_sum(incs, k, false),
        states[k as int].output_bytes == size_sum(incs, k, true),
    decreases k,
{
    if k > 0 {
        let p = (k - 1) as nat;
        lemma_bytes_prefix(states, incs, p);
        lemma_size_sum_mono(incs, k, incs.len(), false);
        lemma_size_sum_mono(incs, k, incs.len(), true);
        assert(bytes_after_inc(states[p as int], incs[p as int], states[k as int]));
    }
}

impl GuiProgress {
    /// Nothing done, nothing expected yet.
    pub fn new() -> (r: Self)
        ensures
            r.completed == 0,
            r.total == 0,
            r.current_file@.len() == 0,
            r.input_bytes == 0,
            r.output_bytes == 0,
    {
        GuiProgress { completed: 0, total: 0, current_file: String::new(), input_bytes: 0, output_bytes: 0 }
    }

    pub fn set_total(&mut self, total: usize)
        ensures
            final(self).total == total,
            final(self).completed == old(self).completed,
            final(self).input_bytes == old(self).input_bytes,
            final(self).output_bytes == old(self).output_bytes,
    {
        self.total = total;
    }

    /// One more task done; a successful one adds its input and output sizes (wrapping, as
    /// the shared counters do).
    pub fn inc(&mut self, sizes: Option<(u64, u64)>)
        ensures
            final(self).total == old(self).total,
            final(self).completed == (old(self).completed + 1) % (usize::MAX as int + 1),
            bytes_after_inc(*old(self), sizes, *final(self)),
    {
        if let Some((input, output)) = sizes {
            self.input_bytes = self.input_bytes.wrapping_add(input);
            self.output_bytes = self.output_bytes.wrapping_add(output);
        }
        self.completed = self.completed.wrapping_add(1);
    }

    /// Bytes saved so far: input minus output, not below zero.
    pub fn saved_bytes(&self) -> (r: u64)
        ensures
            r == (if self.input_bytes >= self.output_bytes {
                self.input_bytes - self.output_bytes
            } else {
                0
            }),
    {
        self.input_bytes.saturating_sub(self.output_bytes)
    }

    /// `正在处理 <done> / <total> …` once a total is known.
    pub fn status_label(&self) -> (r: Option<String>)
        ensures
            self.total == 0 ==> r is None,
            self.total != 0 ==> (r matches Some(s) && s@ == "正在处理 "@ + decimal(self.completed as nat)
                + " / "@ + decimal(self.total as nat) + " …"@),
    {
        if self.total == 0 {
            return None;
        }
        let mut out: Vec<char> = Vec::new();
        push_str(&mut out, "正在处理 ");
        push_decimal(&mut out, self.completed as u64);
        push_str(&mut out, " / ");
        push_decimal(&mut out, self.total as u64);
        push_str(&mut out, " …");
        Some(string_from_chars(&out))
    }
}


// ---------------------------------------------------------------------------
// Environment diagnosis
// ---------------------------------------------------------------------------

/// Whether a build feature is compiled in.
#[derive(Debug)]
pub struct DoctorFeature {
    pub name: String,
    pub enabled: bool,
}

/// Whether an external tool runs here, with its version line or why not.
#[derive(Debug)]
pub struct DoctorTool {
    pub name: String,
    pub available: bool,
    pub detail: String,
    pub required: bool,
}

/// State of the remote processing client.
#[derive(Debug)]
pub struct DoctorRemote {
    pub status: String,
    pub enabled: bool,
    pub base_url: Option<String>,
    pub configured: bool,
}

/// State of the issue-tracker link.
#[derive(Debug)]
pub struct DoctorJira {
    pub status: String,
    pub enabled: bool,
    pub base_url: Option<String>,
    pub project_key: Option<String>,
    pub has_credentials: bool,
}

/// The whole diagnosis.
#[derive(Debug)]
pub struct DoctorReport {
    pub version: String,
    pub rustc: String,
    pub cpu_cores: usize,
    pub platform: String,
    pub features: Vec<DoctorFeature>,
    pub tools: Vec<DoctorTool>,
    pub remote: DoctorRemote,
    pub jira: DoctorJira,
}

/// How running a tool with its version flag went.
#[derive(Debug)]
pub enum ProbeOutcome {
    /// The tool ran; `code` is its exit code when it has one.
    Exited { success: bool, code: Option<i32>, stdout: String },
    /// The tool could not be started.
    SpawnFailed(String),
}

/// The first line of a tool's output, as `str::lines` gives it: up to the first line
/// feed, without the carriage return before it; the whole text when there is no line feed.
pub open spec fn first_line(s: Seq<char>) -> Seq<char> {
    if has_char(s, '\n') {
        let l = before_char(s, '\n');
        if l.len() > 0 && l.last() == '\r' { l.drop_last() } else { l }
    } else {
        s
    }
}

/// What a successful run shows: its first line, or `available` when that is empty.
pub open spec fn version_detail(stdout: Seq<char>) -> Seq<char> {
    if first_line(stdout).len() > 0 { first_line(stdout) } else { "available"@ }
}

fn version_detail_exec(stdout: &String) -> (r: String)
    ensures
        r@ == version_detail(stdout@),
{
    let c = chars_of_string(stdout);
    let line = if has_char_exec(&c, '\n') {
        let l = before_char_vec(&c, '\n');
        if l.len() > 0 && l[l.len() - 1] == '\r' {
            let mut m = l;
            m.pop();
            proof {
                assert(m@ =~= before_char(stdout@, '\n').drop_last());
            }
            m
        } else {
            l
        }
    } else {
        c
    };
    if line.len() > 0 {
        string_from_chars(&line)
    } else {
        string_of("available")
    }
}

/// `exit <code>`, the code being -1 when the tool has none.
pub open spec fn exit_detail(code: Option<i32>) -> Seq<char> {
    "exit "@ + signed_decimal(match code { Some(c) => c as int, None => -1 })
}

/// The diagnosis of tool `name`: a tool that is not required is not run; one that ran
/// and succeeded is available with its version line; otherwise it is unavailable with
/// its exit code or the reason it could not start.
pub fn doctor_tool(name: &str, required: bool, outcome: ProbeOutcome) -> (r: DoctorTool)
    ensures
        r.name@ == name@,
        r.required == required,
        !required ==> !r.available && r.detail@ == "not required (feature disabled)"@,
        required ==> match outcome {
            ProbeOutcome::Exited { success, code, stdout } => if success {
                r.available && r.detail@ == version_detail(stdout@)
            } else {
                !r.available && r.detail@ == exit_detail(code)
            },
            ProbeOutcome::SpawnFailed(e) => !r.available && r.detail == e,
        },
{
    if !required {
        return DoctorTool {
            name: string_of(name),
            available: false,
            detail: string_of("not required (feature disabled)"),
            required: false,
        };
    }
    match outcome {
        ProbeOutcome::Exited { success, code, stdout } => {
            if success {
                DoctorTool { name: string_of(name), available: true, detail: version_detail_exec(&stdout), required: true }
            } else {
                let mut d: Vec<char> = Vec::new();
                push_str(&mut d, "exit ");
                let c: i32 = match code {
                    Some(c) => c,
                    None => -1,
                };
                push_signed(&mut d, c as i64);
                DoctorTool { name: string_of(name), available: false, detail: string_from_chars(&d), required: true }
            }
        },
        ProbeOutcome::SpawnFailed(e) => DoctorTool { name: string_of(name), available: false, detail: e, required: true },
    }
}

/// `label` padded with spaces on the right to sixteen characters.
pub open spec fn padded16(label: Seq<char>) -> Seq<char> {
    if label.len() >= 16 { label } else { label + Seq::new((16 - label.len()) as nat, |i: int| ' ') }
}

/// The line that the text diagnosis prints for a tool:
/// `  <label padded to 16> <state>`.
pub open spec fn tool_line_spec(label: Seq<char>, tool: DoctorTool) -> Seq<char> {
    "  "@ + padded16(label) + " "@ + if !tool.required {
        "not required (feature disabled)"@
    } else if tool.available {
        "available ("@ + tool.detail@ + ")"@
    } else {
        "unavailable ("@ + tool.detail@ + ")"@
    }
}

pub fn tool_line(label: &str, tool: &DoctorTool) -> (r: String)
    ensures
        r@ == tool_line_spec(label@, *tool),
{
    let mut out: Vec<char> = Vec::new();
    push_str(&mut out, "  ");
    let lc = chars_of(label);
    push_all(&mut out, &lc);
    let ghost base = out@;
    let mut k: usize = lc.len();
    while k < 16
        invariant
            lc@ == label@,
            lc@.len() <= k <= 16 || (k == lc@.len() && k >= 16),
            out@ == base + Seq::new((k - lc@.len()) as nat, |i: int| ' '),
        decreases 16 - k,
    {
        out.push(' ');
        proof {
            assert(out@ =~= base + Seq::new((k + 1 - lc@.len()) as nat, |i: int| ' '));
        }
        k += 1;
    }
    proof {
        if label@.len() >= 16 {
            assert(out@ =~= base);
        }
        assert(out@ =~= "  "@ + padded16(label@));
    }
    push_str(&mut out, " ");
    if !tool.required {
        push_str(&mut out, "not required (feature disabled)");
    } else if tool.available {
        push_str(&mut out, "available (");
        push_all(&mut out, &chars_of_string(&tool.detail));
        push_str(&mut out, ")");
    } else {
        push_str(&mut out, "unavailable (");
        push_all(&mut out, &chars_of_string(&tool.detail));
        push_str(&mut out, ")");
    }
    string_from_chars(&out)
}

} // verus!
