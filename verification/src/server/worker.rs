//! Decisions of the job worker: starting an attempt, finishing it, retrying or giving up,
//! and the records that each kind of job produces from its inputs.
//!
//! Reading inputs, running converters and writing outputs are done by the caller; the
//! functions here take what that work produced.
use vstd::prelude::*;

use crate::keyed::{lookup, upserted, Keyed};
use crate::paths::{extension, extension_of, file_stem, file_stem_of};
use crate::scheduler::{format_named, format_named_exec, ImageFormat};
use crate::server::config::{backoff_spec, non_blank, ServerConfig, WorkerReliabilityPolicy, value_of};
use crate::server::error::StoreError;
use crate::server::models::{
    clone_opt_string, heartbeat_note, phase_event, RemoteJobEventKind, DeadLetterRecord, RemoteAssetRef, RemoteExtractResultSummary, RemoteJobEvent,
    RemoteJobPhase, RemoteJobRequest, RemoteJobResult, RemoteJobStatus, RemoteReviewItem, REMOTE_SCHEMA_VERSION,
    CreateRemoteBatchRequest, RemoteBatch, RemoteBatchKind,
};
use crate::server::object_store::checksum_of;
use crate::server::queue::{ack_post, InMemoryQueue};
use crate::server::storage::{events_of, InMemoryJobStore, RemoteJobRecord};
use crate::text::{
    chars_of, chars_of_string, contains, contains_exec, decimal, eq_str, eq_vec, has_char,
    has_char_exec, is_alnum_ascii, is_alnum_ascii_exec, lower, lower_vec, push_all, push_decimal,
    push_str, replace_all, replace_all_vec, string_from_chars, string_of, strip_trailing,
    strip_trailing_vec, trim, trim_vec,
};
use crate::ui::ProcessReport;

verus! {

// ---------------------------------------------------------------------------
// Names, paths and formats
// ---------------------------------------------------------------------------

/// A character kept in a file stem: ASCII letters and digits stay, anything else is `-`.
pub open spec fn stem_char(c: char) -> char {
    if is_alnum_ascii(c) {
        c
    } else {
        '-'
    }
}

/// `file-<idx>`.
pub open spec fn file_fallback(idx: nat) -> Seq<char> {
    "file-"@ + decimal(idx)
}

/// A file-name stem safe in generated names: the stem of `name` with every character other
/// than an ASCII letter or digit turned into `-`, or `file-<idx>` when there is none.
pub open spec fn safe_stem_spec(name: Seq<char>, idx: nat) -> Seq<char> {
    match file_stem_of(name) {
        Some(s) => if s.len() > 0 {
            Seq::new(s.len(), |i: int| stem_char(s[i]))
        } else {
            file_fallback(idx)
        },
        None => file_fallback(idx),
    }
}

fn file_fallback_exec(idx: usize) -> (r: String)
    ensures
        r@ == file_fallback(idx as nat),
{
    let mut out: Vec<char> = Vec::new();
    push_str(&mut out, "file-");
    push_decimal(&mut out, idx as u64);
    string_from_chars(&out)
}

pub fn safe_stem(name: &str, idx: usize) -> (r: String)
    ensures
        r@ == safe_stem_spec(name@, idx as nat),
{
    match file_stem(name) {
        Some(s) => {
            let c = chars_of_string(&s);
            if c.len() == 0 {
                return file_fallback_exec(idx);
            }
            let mut out: Vec<char> = Vec::new();
            let mut i: usize = 0;
            while i < c.len()
                invariant
                    i <= c@.len(),
                    out@ == Seq::new(i as nat, |j: int| stem_char(c@[j])),
                decreases c@.len() - i,
            {
                let ch = c[i];
                out.push(if is_alnum_ascii_exec(ch) { ch } else { '-' });
                i += 1;
                assert(out@ =~= Seq::new(i as nat, |j: int| stem_char(c@[j])));
            }
            string_from_chars(&out)
        },
        None => file_fallback_exec(idx),
    }
}

/// `<safe stem>-thumb.jpg`.
pub fn thumb_name(name: &str, idx: usize) -> (r: String)
    ensures
        r@ == safe_stem_spec(name@, idx as nat) + "-thumb.jpg"@,
{
    let s = safe_stem(name, idx);
    let mut out = chars_of_string(&s);
    push_str(&mut out, "-thumb.jpg");
    string_from_chars(&out)
}

/// A CSV field: quoted, with quotes doubled, when it holds a comma, a quote or a newline.
pub open spec fn csv_cell_spec(v: Seq<char>) -> Seq<char> {
    if has_char(v, ',') || has_char(v, '"') || has_char(v, '\n') {
        seq!['"'] + replace_all(v, seq!['"'], seq!['"', '"']) + seq!['"']
    } else {
        v
    }
}

fn csv_cell_chars(v: &Vec<char>) -> (r: Vec<char>)
    ensures
        r@ == csv_cell_spec(v@),
{
    if has_char_exec(v, ',') || has_char_exec(v, '"') || has_char_exec(v, '\n') {
        let from = vec!['"'];
        let to = vec!['"', '"'];
        assert(from@ =~= seq!['"']);
        assert(to@ =~= seq!['"', '"']);
        let mut out: Vec<char> = vec!['"'];
        let body = replace_all_vec(v, &from, &to);
        push_all(&mut out, &body);
        out.push('"');
        assert(out@ =~= csv_cell_spec(v@));
        out
    } else {
        let mut out: Vec<char> = Vec::new();
        push_all(&mut out, v);
        out
    }
}

pub fn csv_cell(value: &str) -> (r: String)
    ensures
        r@ == csv_cell_spec(value@),
{
    let v = chars_of(value);
    string_from_chars(&csv_cell_chars(&v))
}

/// Where an input asset is written under the job's input directory: its name with `\`
/// turned into `/`, or `file-<idx>` when that is empty or holds `..`.
pub open spec fn relative_path_spec(name: Seq<char>, idx: nat) -> Seq<char> {
    let cleaned = replace_all(name, seq!['\\'], seq!['/']);
    if cleaned.len() == 0 || contains(cleaned, ".."@) {
        file_fallback(idx)
    } else {
        cleaned
    }
}

pub fn relative_path_for_asset(asset: &RemoteAssetRef, idx: usize) -> (r: String)
    ensures
        r@ == relative_path_spec(asset.name@, idx as nat),
{
    let n = chars_of_string(&asset.name);
    let from = vec!['\\'];
    let to = vec!['/'];
    assert(from@ =~= seq!['\\']);
    assert(to@ =~= seq!['/']);
    let cleaned = replace_all_vec(&n, &from, &to);
    let dots = chars_of("..");
    if cleaned.len() == 0 || contains_exec(&cleaned, &dots) {
        file_fallback_exec(idx)
    } else {
        string_from_chars(&cleaned)
    }
}

/// The target format that a job asks for; an unknown name gives WebP.
pub fn parse_format(s: &str) -> (r: ImageFormat)
    ensures
        r == (match format_named(lower(s@)) {
            Some(f) => f,
            None => ImageFormat::WebP,
        }),
{
    let c = chars_of(s);
    match format_named_exec(&lower_vec(&c)) {
        Some(f) => f,
        None => ImageFormat::WebP,
    }
}

/// The MIME type of a lower-cased extension.
pub open spec fn mime_for(ext: Seq<char>) -> Seq<char> {
    if ext == "jpg"@ || ext == "jpeg"@ {
        "image/jpeg"@
    } else if ext == "png"@ {
        "image/png"@
    } else if ext == "webp"@ {
        "image/webp"@
    } else if ext == "gif"@ {
        "image/gif"@
    } else if ext == "bmp"@ {
        "image/bmp"@
    } else if ext == "tif"@ || ext == "tiff"@ {
        "image/tiff"@
    } else if ext == "jxl"@ {
        "image/jxl"@
    } else if ext == "avif"@ {
        "image/avif"@
    } else {
        "application/octet-stream"@
    }
}

/// The MIME type of a file name, by its extension in any case; always some type.
pub fn guess_mime(name: &str) -> (r: Option<String>)
    ensures
        r matches Some(m) && m@ == mime_for(lower(match extension_of(name@) {
            Some(e) => e,
            None => Seq::empty(),
        })),
{
    let ext: Vec<char> = match extension(name) {
        Some(e) => lower_vec(&chars_of_string(&e)),
        None => {
            let v: Vec<char> = Vec::new();
            proof {
                assert(lower(Seq::<char>::empty()) =~= Seq::<char>::empty());
            }
            v
        },
    };
    let m = if eq_str(&ext, "jpg") || eq_str(&ext, "jpeg") {
        "image/jpeg"
    } else if eq_str(&ext, "png") {
        "image/png"
    } else if eq_str(&ext, "webp") {
        "image/webp"
    } else if eq_str(&ext, "gif") {
        "image/gif"
    } else if eq_str(&ext, "bmp") {
        "image/bmp"
    } else if eq_str(&ext, "tif") || eq_str(&ext, "tiff") {
        "image/tiff"
    } else if eq_str(&ext, "jxl") {
        "image/jxl"
    } else if eq_str(&ext, "avif") {
        "image/avif"
    } else {
        "application/octet-stream"
    };
    Some(string_of(m))
}

/// The non-blank value of the first `key` entry among a job's extra parameters.
pub fn extra_value(request: &RemoteJobRequest, key: &str) -> (r: Option<String>)
    ensures
        (match r {
            Some(v) => Some(v@),
            None => None,
        }) == non_blank(value_of(request.extras@, key@)),
{
    match crate::server::config::lookup_value(&request.extras, key) {
        Some(v) => {
            let t = trim_vec(&v);
            if t.len() > 0 {
                Some(string_from_chars(&v))
            } else {
                None
            }
        },
        None => None,
    }
}

/// The workspace of a job: its own, or the server's default.
pub fn workspace_id_for(config: &ServerConfig, request: &RemoteJobRequest) -> (r: Option<String>)
    ensures
        r == Some(match request.workspace_id {
            Some(w) => w,
            None => config.default_workspace,
        }),
{
    Some(match &request.workspace_id {
        Some(w) => w.clone(),
        None => config.default_workspace.clone(),
    })
}

/// `<public base without trailing />/v1/artifacts/<asset id>/content`.
pub open spec fn download_url_spec(public_base: Seq<char>, asset_id: Seq<char>) -> Seq<char> {
    strip_trailing(public_base, '/') + "/v1/artifacts/"@ + asset_id + "/content"@
}

pub fn download_url(config: &ServerConfig, asset_id: &str) -> (r: String)
    ensures
        r@ == download_url_spec(config.public_base@, asset_id@),
{
    let b = chars_of_string(&config.public_base);
    let mut out = strip_trailing_vec(&b, '/');
    push_str(&mut out, "/v1/artifacts/");
    push_str(&mut out, asset_id);
    push_str(&mut out, "/content");
    string_from_chars(&out)
}

// ---------------------------------------------------------------------------
// Generated assets
// ---------------------------------------------------------------------------

/// `out-<job>-<kind>-<idx>`: the id of a generated asset.
pub open spec fn generated_id(job_id: Seq<char>, kind: Seq<char>, idx: nat) -> Seq<char> {
    "out-"@ + job_id + "-"@ + kind + "-"@ + decimal(idx)
}

fn generated_id_exec(job_id: &str, kind: &str, idx: usize) -> (r: String)
    ensures
        r@ == generated_id(job_id@, kind@, idx as nat),
{
    let mut out: Vec<char> = Vec::new();
    push_str(&mut out, "out-");
    push_str(&mut out, job_id);
    push_str(&mut out, "-");
    push_str(&mut out, kind);
    push_str(&mut out, "-");
    push_decimal(&mut out, idx as u64);
    string_from_chars(&out)
}

/// The record of bytes that a job generated and stored under `assets/<id>`: named `name`,
/// of type `mime` or else the type of its name, with their size and checksum.
pub fn bytes_asset(config: &ServerConfig, job_id: &str, kind: &str, idx: usize, name: &str, mime: Option<&str>, bytes: &[u8]) -> (r: RemoteAssetRef)
    ensures
        r.id@ == generated_id(job_id@, kind@, idx as nat),
        r.name@ == name@,
        r.mime matches Some(m) && m@ == (match mime {
            Some(t) => t@,
            None => mime_for(lower(match extension_of(name@) {
                Some(e) => e,
                None => Seq::empty(),
            })),
        }),
        r.size == Some(bytes@.len() as u64),
        r.checksum matches Some(c) && c@ == checksum_of(bytes@),
        r.download_url matches Some(u) && u@ == download_url_spec(config.public_base@, r.id@),
{
    let id = generated_id_exec(job_id, kind, idx);
    let checksum = crate::server::object_store::sha256_hex(bytes);
    let mime = match mime {
        Some(m) => Some(string_of(m)),
        None => guess_mime(name),
    };
    let url = download_url(config, id.as_str());
    RemoteAssetRef {
        id,
        name: string_of(name),
        mime,
        size: Some(bytes.len() as u64),
        checksum: Some(checksum),
        download_url: Some(url),
    }
}

/// `out-<job>-<idx>`: the id of the `idx`-th output file of a conversion job.
pub open spec fn output_id(job_id: Seq<char>, idx: nat) -> Seq<char> {
    "out-"@ + job_id + "-"@ + decimal(idx)
}

/// The record of the `idx`-th output file of conversion job `job_id`, stored under
/// `assets/<id>` with `size` bytes and `checksum`: named by its path relative to the output
/// directory with `\` turned into `/`, typed by its file name (or `out-<idx>` when the path
/// has none), and downloaded under the public base.
pub fn output_asset(
    config: &ServerConfig,
    job_id: &str,
    idx: usize,
    file_name: Option<String>,
    rel_path: &str,
    size: u64,
    checksum: String,
) -> (r: RemoteAssetRef)
    ensures
        r.id@ == output_id(job_id@, idx as nat),
        r.name@ == replace_all(rel_path@, seq!['\\'], seq!['/']),
        r.mime matches Some(m) && m@ == mime_for(lower(match extension_of(match file_name {
            Some(n) => n@,
            None => "out-"@ + decimal(idx as nat),
        }) {
            Some(e) => e,
            None => Seq::empty(),
        })),
        r.size == Some(size),
        r.checksum == Some(checksum),
        r.download_url matches Some(u) && u@ == download_url_spec(config.public_base@, r.id@),
{
    let mut idv: Vec<char> = Vec::new();
    push_str(&mut idv, "out-");
    push_str(&mut idv, job_id);
    push_str(&mut idv, "-");
    push_decimal(&mut idv, idx as u64);
    let id = string_from_chars(&idv);
    let kind_name = match file_name {
        Some(n) => n,
        None => {
            let mut v: Vec<char> = Vec::new();
            push_str(&mut v, "out-");
            push_decimal(&mut v, idx as u64);
            string_from_chars(&v)
        },
    };
    let mime = guess_mime(kind_name.as_str());
    let mut from: Vec<char> = Vec::new();
    from.push('\\');
    let mut to: Vec<char> = Vec::new();
    to.push('/');
    proof {
        assert(from@ =~= seq!['\\']);
        assert(to@ =~= seq!['/']);
    }
    let name = string_from_chars(&replace_all_vec(&chars_of(rel_path), &from, &to));
    let url = download_url(config, id.as_str());
    RemoteAssetRef { id, name, mime, size: Some(size), checksum: Some(checksum), download_url: Some(url) }
}

/// The object-store key of an asset: `assets/<id>`.
pub fn asset_key(asset_id: &str) -> (r: String)
    ensures
        r@ == "assets/"@ + asset_id@,
{
    let mut out: Vec<char> = Vec::new();
    push_str(&mut out, "assets/");
    push_str(&mut out, asset_id);
    string_from_chars(&out)
}

/// The CSV report of a data-extraction job: a header line, then one line per input with
/// its id, name, size and type.
pub open spec fn extract_report_spec(inputs: Seq<(RemoteAssetRef, u64)>) -> Seq<char>
    decreases inputs.len(),
{
    if inputs.len() == 0 {
        "asset_id,name,size,mime\n"@
    } else {
        let (a, size) = inputs.last();
        extract_report_spec(inputs.drop_last()) + csv_cell_spec(a.id@) + ","@ + csv_cell_spec(a.name@)
            + ","@ + decimal(size as nat) + ","@ + csv_cell_spec(match a.mime {
                Some(m) => m@,
                None => Seq::empty(),
            }) + "\n"@
    }
}

pub fn extract_report_csv(inputs: &Vec<(RemoteAssetRef, u64)>) -> (r: String)
    ensures
        r@ == extract_report_spec(inputs@),
{
    let mut out: Vec<char> = Vec::new();
    push_str(&mut out, "asset_id,name,size,mime\n");
    let mut i: usize = 0;
    while i < inputs.len()
        invariant
            i <= inputs@.len(),
            out@ == extract_report_spec(inputs@.subrange(0, i as int)),
        decreases inputs@.len() - i,
    {
        let (a, size) = (&inputs[i].0, inputs[i].1);
        let idc = chars_of_string(&a.id);
        push_all(&mut out, &csv_cell_chars(&idc));
        push_str(&mut out, ",");
        let nc = chars_of_string(&a.name);
        push_all(&mut out, &csv_cell_chars(&nc));
        push_str(&mut out, ",");
        push_decimal(&mut out, size);
        push_str(&mut out, ",");
        let mc: Vec<char> = match &a.mime {
            Some(m) => chars_of_string(m),
            None => Vec::new(),
        };
        push_all(&mut out, &csv_cell_chars(&mc));
        push_str(&mut out, "\n");
        proof {
            assert(inputs@.subrange(0, i + 1).drop_last() =~= inputs@.subrange(0, i as int));
        }
        i += 1;
    }
    proof {
        assert(inputs@.subrange(0, i as int) =~= inputs@);
    }
    string_from_chars(&out)
}

// ---------------------------------------------------------------------------
// Outcomes of jobs
// ---------------------------------------------------------------------------

/// The phases after which nothing more happens to a job.
pub open spec fn is_terminal(p: RemoteJobPhase) -> bool {
    p == RemoteJobPhase::Succeeded || p == RemoteJobPhase::Failed || p == RemoteJobPhase::Cancelled
}

pub fn phase_is_terminal(p: RemoteJobPhase) -> (r: bool)
    ensures
        r == is_terminal(p),
{
    match p {
        RemoteJobPhase::Succeeded | RemoteJobPhase::Failed | RemoteJobPhase::Cancelled => true,
        _ => false,
    }
}

/// The phase of a conversion run: failed when it has failures and no success, else
/// cancelled when cancelled, else succeeded.
pub open spec fn convert_phase(successes: nat, failures: nat, cancelled: bool) -> RemoteJobPhase {
    if failures > 0 && successes == 0 {
        RemoteJobPhase::Failed
    } else if cancelled {
        RemoteJobPhase::Cancelled
    } else {
        RemoteJobPhase::Succeeded
    }
}

/// How a conversion run ends: with at least one converted file and not cancelled it
/// succeeded, whatever the number of failed files; it failed exactly when files failed
/// and none was converted; a run with no failure ends succeeded or cancelled.
pub proof fn law_conversion_phase(successes: nat, failures: nat, cancelled: bool)
    ensures
        successes > 0 && !cancelled ==> convert_phase(successes, failures, cancelled) == RemoteJobPhase::Succeeded,
        (convert_phase(successes, failures, cancelled) == RemoteJobPhase::Failed) <==> (failures > 0 && successes == 0),
        failures == 0 ==> convert_phase(successes, failures, cancelled) == (if cancelled {
            RemoteJobPhase::Cancelled
        } else {
            RemoteJobPhase::Succeeded
        }),
        cancelled && successes > 0 ==> convert_phase(successes, failures, cancelled) == RemoteJobPhase::Cancelled,
        convert_phase(successes, failures, cancelled) == RemoteJobPhase::Succeeded
            || convert_phase(successes, failures, cancelled) == RemoteJobPhase::Failed
            || convert_phase(successes, failures, cancelled) == RemoteJobPhase::Cancelled,
{
}

/// `<path>: <error>` of the first five failures, joined by `; `.
pub open spec fn failure_summary(f: Seq<crate::ui::FailureRecord>) -> Seq<char>
    decreases f.len(),
{
    if f.len() == 0 {
        Seq::empty()
    } else if f.len() > 5 {
        failure_summary(f.subrange(0, 5))
    } else {
        let last = f.last();
        let head = failure_summary(f.drop_last());
        (if f.len() == 1 { Seq::empty() } else { head + "; "@ }) + last.path@ + ": "@ + last.error@
    }
}

fn failure_summary_exec(f: &Vec<crate::ui::FailureRecord>) -> (r: String)
    ensures
        r@ == failure_summary(f@),
{
    let n: usize = if f.len() > 5 { 5 } else { f.len() };
    let ghost g = f@.subrange(0, n as int);
    proof {
        if f@.len() > 5 {
            assert(failure_summary(f@) == failure_summary(g));
        } else {
            assert(g =~= f@);
        }
    }
    let mut out: Vec<char> = Vec::new();
    let mut i: usize = 0;
    while i < n
        invariant
            i <= n,
            n <= 5,
            n <= f@.len(),
            g == f@.subrange(0, n as int),
            out@ == failure_summary(g.subrange(0, i as int)),
        decreases n - i,
    {
        if i > 0 {
            push_str(&mut out, "; ");
        }
        let pc = chars_of_string(&f[i].path);
        push_all(&mut out, &pc);
        push_str(&mut out, ": ");
        let ec = chars_of_string(&f[i].error);
        push_all(&mut out, &ec);
        proof {
            assert(g.subrange(0, i + 1).drop_last() =~= g.subrange(0, i as int));
            assert(g.subrange(0, i + 1).last() == f@[i as int]);
        }
        i += 1;
    }
    proof {
        assert(g.subrange(0, n as int) =~= g);
    }
    string_from_chars(&out)
}

/// The result and final status of a conversion job whose run produced `report` and the
/// stored `artifacts`, at `now`.
pub fn convert_outcome(status: RemoteJobStatus, report: &ProcessReport, artifacts: Vec<RemoteAssetRef>, now: u64) -> (r: (RemoteJobResult, RemoteJobStatus))
    requires
        report.successes + report.failures@.len() <= usize::MAX,
    ensures
        ({
            let (result, st) = r;
            let phase = convert_phase(report.successes as nat, report.failures@.len(), report.cancelled);
            &&& st.phase == phase
            &&& st.processed == report.successes
            &&& st.total == (if report.total >= report.successes + report.failures@.len() {
                report.total as int
            } else {
                report.successes + report.failures@.len()
            })
            &&& st.updated_at == now
            &&& st.job_id == status.job_id && st.source == status.source
            &&& st.created_at == status.created_at && st.log_summary == status.log_summary
            &&& st.schema_version == status.schema_version
            &&& (if report.failures@.len() > 0 {
                st.error_summary matches Some(e) && e@ == failure_summary(report.failures@)
            } else {
                st.error_summary == status.error_summary
            })
            &&& result.schema_version == REMOTE_SCHEMA_VERSION
            &&& result.job_id == status.job_id
            &&& result.phase == phase
            &&& result.successes == report.successes
            &&& result.failures == report.failures@.len()
            &&& result.artifacts@ == artifacts@
            &&& result.error_summary == st.error_summary
            &&& result.updated_at == now
        }),
        !report.cancelled && report.successes > 0 ==> r.0.phase == RemoteJobPhase::Succeeded
            && r.1.phase == RemoteJobPhase::Succeeded,
        report.failures@.len() > 0 && report.successes == 0 ==> r.0.phase == RemoteJobPhase::Failed
            && r.1.phase == RemoteJobPhase::Failed,
        report.cancelled && !(report.failures@.len() > 0 && report.successes == 0)
            ==> r.0.phase == RemoteJobPhase::Cancelled && r.1.phase == RemoteJobPhase::Cancelled,
{
    let mut st = status;
    let failed = report.failures.len() > 0 && report.successes == 0;
    st.phase = if failed {
        RemoteJobPhase::Failed
    } else if report.cancelled {
        RemoteJobPhase::Cancelled
    } else {
        RemoteJobPhase::Succeeded
    };
    st.processed = report.successes;
    let all = report.successes + report.failures.len();
    st.total = if report.total >= all { report.total } else { all };
    st.updated_at = now;
    if report.failures.len() > 0 {
        st.error_summary = Some(failure_summary_exec(&report.failures));
    }
    let result = RemoteJobResult {
        schema_version: REMOTE_SCHEMA_VERSION,
        job_id: st.job_id.clone(),
        phase: st.phase,
        successes: report.successes,
        failures: report.failures.len(),
        artifacts,
        error_summary: clone_opt_string(&st.error_summary),
        updated_at: now,
    };
    (result, st)
}

/// A job's status marked succeeded with `processed` of `total` (at least `processed`) done.
pub fn succeeded_status(store: &InMemoryJobStore, job_id: &str, processed: usize, total: usize, log_summary: Option<String>, now: u64) -> (r: Result<RemoteJobStatus, StoreError>)
    requires
        store.wf(),
    ensures
        match store.job(job_id@) {
            None => r matches Err(StoreError::NotFound(m)) && m@ == job_id@,
            Some(rec) => r matches Ok(st) && st == RemoteJobStatus {
                phase: RemoteJobPhase::Succeeded,
                processed,
                total: if total >= processed { total } else { processed },
                log_summary,
                updated_at: now,
                ..rec.status
            },
        },
{
    let mut status = store.get_job(job_id)?;
    status.phase = RemoteJobPhase::Succeeded;
    status.processed = processed;
    status.total = if total >= processed { total } else { processed };
    status.log_summary = log_summary;
    status.updated_at = now;
    Ok(status)
}

// ---------------------------------------------------------------------------
// Attempts
// ---------------------------------------------------------------------------

/// How the start of an attempt went.
#[derive(Debug)]
pub enum AttemptStart {
    /// The job had already finished; its claim was acknowledged.
    AlreadyFinished,
    /// The job is now running; the work needs its request.
    Started { request: RemoteJobRequest, status: RemoteJobStatus },
}

/// How an attempt ended.
#[derive(Debug, Clone, Copy, PartialEq, Eq, Structural)]
pub enum AttemptEnd {
    /// Result stored, claim acknowledged.
    Completed,
    /// Given up after too many attempts: the job failed and a dead letter was written.
    DeadLettered,
    /// To be tried again as attempt `next_attempt` after `sleep_ms` milliseconds.
    Retry { next_attempt: u32, sleep_ms: u64 },
}

/// Whether a checksum that an artifact carries matches what was recorded.
#[derive(Debug, Clone, Copy, PartialEq, Eq, Structural)]
pub enum ArtifactChecksumStatus {
    Matches,
    Missing,
    Mismatch,
}

pub open spec fn checksum_status(expected: Option<Seq<char>>, actual: Option<Seq<char>>) -> ArtifactChecksumStatus {
    match (expected, actual) {
        (Some(e), Some(a)) => if e == a { ArtifactChecksumStatus::Matches } else { ArtifactChecksumStatus::Mismatch },
        _ => ArtifactChecksumStatus::Missing,
    }
}

pub fn verify_checksum(expected: Option<&str>, actual: Option<&str>) -> (r: ArtifactChecksumStatus)
    ensures
        r == checksum_status(
            match expected {
                Some(e) => Some(e@),
                None => None,
            },
            match actual {
                Some(a) => Some(a@),
                None => None,
            },
        ),
{
    match (expected, actual) {
        (Some(e), Some(a)) => {
            let ec = chars_of(e);
            let ac = chars_of(a);
            if eq_vec(&ec, &ac) {
                ArtifactChecksumStatus::Matches
            } else {
                ArtifactChecksumStatus::Mismatch
            }
        },
        _ => ArtifactChecksumStatus::Missing,
    }
}

/// Starts attempt `attempt` of worker `worker_id` on job `job_id` under claim
/// `claim_token` at `now`: extends the claim, acknowledges it when the job already
/// finished, else marks the job running and logs the worker's heartbeat.
pub fn begin_attempt(store: &mut InMemoryJobStore, queue: &mut InMemoryQueue, policy: &WorkerReliabilityPolicy, claim_token: &str, job_id: &str, worker_id: &str, attempt: u32, now: u64) -> (r: Result<AttemptStart, StoreError>)
    requires
        old(store).wf(),
        old(queue).wf_view(),
    ensures
        final(store).wf(),
        final(queue).wf_view(),
        match old(store).job(job_id@) {
            None => r matches Err(StoreError::NotFound(m)) && m@ == job_id@,
            Some(rec) => if is_terminal(rec.status.phase) {
                r matches Ok(AttemptStart::AlreadyFinished)
                    && final(store).job(job_id@) == Some(rec)
            } else {
                r matches Ok(AttemptStart::Started { request, status }) && {
                    let before = events_of(old(store).events_view(), job_id@);
                    let after = events_of(final(store).events_view(), job_id@);
                    &&& status == RemoteJobStatus { phase: RemoteJobPhase::Running, updated_at: now, ..rec.status }
                    &&& final(store).job(job_id@) == Some(RemoteJobRecord { status, ..rec })
                    &&& after.len() == before.len() + 2
                    &&& after.subrange(0, before.len() as int) == before
                    &&& after[before.len() as int] == phase_event(status.job_id, status.source, RemoteJobPhase::Running, now)
                    &&& after.last().kind == RemoteJobEventKind::Heartbeat
                    &&& after.last().job_id == status.job_id
                    &&& after.last().phase == Some(RemoteJobPhase::Running)
                    &&& after.last().processed == Some(status.processed)
                    &&& after.last().total == Some(status.total)
                    &&& after.last().message matches Some(m) && m@ == heartbeat_note(worker_id@, attempt)
                    &&& after.last().ts == now
                }
            },
        },
{
    let _ = queue.heartbeat(claim_token, policy.lease_secs);
    let record = store.get_job_record(job_id)?;
    let mut status = record.status.clone();
    if phase_is_terminal(status.phase) {
        let _ = queue.ack(claim_token);
        return Ok(AttemptStart::AlreadyFinished);
    }
    status.phase = RemoteJobPhase::Running;
    status.updated_at = now;
    let saved = status.clone();
    store.update_job(saved)?;
    let ghost mid = events_of(store.events_view(), job_id@);
    let event = RemoteJobEvent::heartbeat(&status.job_id, status.source, status.processed, status.total, worker_id, attempt, now);
    let _ = store.append_event(event);
    proof {
        let before = events_of(old(store).events_view(), job_id@);
        assert(mid.drop_last() == before);
        assert(events_of(store.events_view(), job_id@).drop_last() == mid);
    }
    Ok(AttemptStart::Started { request: record.request, status })
}

/// What ending failed attempt number `attempt` with error `err` at `now` does: the claim is
/// acknowledged; the job is given up (a dead letter, a failed result and a failed status)
/// when the next attempt would reach the policy's limit, else a retry is asked for after
/// the backoff, at most 50 ms, and the store is left as it was.
pub open spec fn fail_post(
    old_store: InMemoryJobStore,
    old_queue: InMemoryQueue,
    policy: WorkerReliabilityPolicy,
    claim_token: Seq<char>,
    job_id: Seq<char>,
    attempt: u32,
    status: RemoteJobStatus,
    err: String,
    now: u64,
    new_store: InMemoryJobStore,
    new_queue: InMemoryQueue,
    r: AttemptEnd,
) -> bool {
    &&& ack_post(old_queue, claim_token, new_queue)
    &&& {
            let next: u32 = if attempt < u32::MAX { (attempt + 1) as u32 } else { u32::MAX };
            if next >= policy.max_attempts {
                &&& r == AttemptEnd::DeadLettered
                &&& new_store.dead_letters_view() == old_store.dead_letters_view().push(DeadLetterRecord {
                    schema_version: REMOTE_SCHEMA_VERSION,
                    job_id: new_store.dead_letters_view().last().job_id,
                    attempts: next,
                    last_error: err,
                    dead_lettered_at: now,
                })
                &&& new_store.dead_letters_view().last().job_id@ == job_id
                &&& lookup(new_store.results_view(), job_id) matches Some(res) && res.phase == RemoteJobPhase::Failed
                    && res.successes == 0 && res.failures == 1 && res.artifacts@.len() == 0
                    && res.error_summary == Some(err) && res.updated_at == now
                &&& (old_store.job(status.job_id@) is Some ==> (new_store.job(status.job_id@) matches Some(rec)
                    && rec.status.phase == RemoteJobPhase::Failed && rec.status.error_summary == Some(err)
                    && rec.status.updated_at == now))
            } else {
                &&& r == AttemptEnd::Retry {
                    next_attempt: next,
                    sleep_ms: if backoff_spec(policy.backoff_base_ms as nat, policy.backoff_max_ms as nat, next as nat) < 50 { backoff_spec(policy.backoff_base_ms as nat, policy.backoff_max_ms as nat, next as nat) as u64 } else { 50 },
                }
                &&& new_store == old_store
            }
        }
}

/// Ends a failed attempt number `attempt`: acknowledges the claim, then gives the job up
/// when the next attempt would reach the policy's limit (marking it failed, storing a
/// failed result and a dead letter), else asks for a retry after the backoff, at most 50 ms.
pub fn fail_or_retry(store: &mut InMemoryJobStore, queue: &mut InMemoryQueue, policy: &WorkerReliabilityPolicy, claim_token: &str, job_id: &str, attempt: u32, status: &RemoteJobStatus, err: String, now: u64) -> (r: AttemptEnd)
    requires
        old(store).wf(),
        old(queue).wf_view(),
    ensures
        final(store).wf(),
        final(queue).wf_view(),
        fail_post(*old(store), *old(queue), *policy, claim_token@, job_id@, attempt, *status, err, now, *final(store), *final(queue), r),
{
    let next: u32 = attempt.saturating_add(1);
    let _ = queue.ack(claim_token);
    if policy.should_dead_letter(next) {
        let mut failed = status.clone();
        failed.phase = RemoteJobPhase::Failed;
        failed.error_summary = Some(err.clone());
        failed.updated_at = now;
        let _ = store.update_job(failed);
        let ghost mid_dead = store.dead_letters_view();
        let result = RemoteJobResult {
            schema_version: REMOTE_SCHEMA_VERSION,
            job_id: string_of(job_id),
            phase: RemoteJobPhase::Failed,
            successes: 0,
            failures: 1,
            artifacts: Vec::new(),
            error_summary: Some(err.clone()),
            updated_at: now,
        };
        let _ = store.set_result(result);
        let record = DeadLetterRecord {
            schema_version: REMOTE_SCHEMA_VERSION,
            job_id: string_of(job_id),
            attempts: next,
            last_error: err,
            dead_lettered_at: now,
        };
        let _ = store.put_dead_letter(record);
        return AttemptEnd::DeadLettered;
    }
    let b = policy.backoff_ms(next);
    AttemptEnd::Retry { next_attempt: next, sleep_ms: if b < 50 { b } else { 50 } }
}

/// Puts a job back in the queue as attempt `next_attempt`.
pub fn retry_job(queue: &mut InMemoryQueue, job_id: &str, next_attempt: u32) -> (r: Result<(), StoreError>)
    requires
        old(queue).wf_view(),
    ensures
        final(queue).wf_view(),
        r is Ok,
        final(queue).pending_view().drop_last() == old(queue).pending_view(),
        final(queue).pending_view().last().job_id@ == job_id@,
        final(queue).pending_view().last().attempt == next_attempt,
{
    queue.enqueue(job_id, next_attempt)
}

/// A failed checksum among the artifacts of a result, if any.
pub open spec fn first_bad_checksum(arts: Seq<RemoteAssetRef>) -> Option<ArtifactChecksumStatus>
    decreases arts.len(),
{
    if arts.len() == 0 {
        None
    } else {
        let c = match arts[0].checksum {
            Some(s) => Some(s@),
            None => None,
        };
        let st = checksum_status(c, c);
        if st == ArtifactChecksumStatus::Matches || st == ArtifactChecksumStatus::Missing {
            first_bad_checksum(arts.drop_first())
        } else {
            Some(st)
        }
    }
}

/// Ends attempt `attempt` with what the work produced: a result and final status to store,
/// or an error. A stored result acknowledges the claim; an error, or an artifact checksum
/// that fails when the policy requires them, goes through `fail_or_retry`.
pub fn finish_attempt(store: &mut InMemoryJobStore, queue: &mut InMemoryQueue, policy: &WorkerReliabilityPolicy, claim_token: &str, job_id: &str, attempt: u32, status: &RemoteJobStatus, outcome: Result<(RemoteJobResult, RemoteJobStatus), String>, now: u64) -> (r: Result<AttemptEnd, StoreError>)
    requires
        old(store).wf(),
        old(queue).wf_view(),
    ensures
        final(store).wf(),
        final(queue).wf_view(),
        ack_post(*old(queue), claim_token@, *final(queue)) || r is Err,
        match outcome {
            Ok((result, fin)) => if !policy.require_artifact_checksum || first_bad_checksum(result.artifacts@) is None {
                &&& (old(store).job(fin.job_id@) is None <==> r is Err)
                &&& r is Ok ==> r == Ok::<AttemptEnd, StoreError>(AttemptEnd::Completed)
                &&& r is Ok ==> (final(store).job(fin.job_id@) matches Some(rec) && rec.status == fin)
                &&& r is Ok ==> (lookup(final(store).results_view(), result.job_id@) matches Some(stored)
                        && stored.phase == result.phase && stored.successes == result.successes
                        && stored.failures == result.failures && stored.artifacts@ == result.artifacts@)
            } else {
                r matches Ok(e) && exists|m: String| m@ == "checksum Mismatch"@
                    && #[trigger] fail_post(*old(store), *old(queue), *policy, claim_token@, job_id@, attempt, *status, m, now, *final(store), *final(queue), e)
            },
            Err(err) => r matches Ok(e)
                && fail_post(*old(store), *old(queue), *policy, claim_token@, job_id@, attempt, *status, err, now, *final(store), *final(queue), e),
        },
{
    match outcome {
        Ok((result, fin)) => {
            if policy.require_artifact_checksum {
                let mut i: usize = 0;
                assert(result.artifacts@.subrange(0, result.artifacts@.len() as int) =~= result.artifacts@);
                while i < result.artifacts.len()
                    invariant
                        i <= result.artifacts@.len(),
                        *store == *old(store),
                        *queue == *old(queue),
                        store.wf(),
                        queue.wf_view(),
                        first_bad_checksum(result.artifacts@) == first_bad_checksum(result.artifacts@.subrange(i as int, result.artifacts@.len() as int)),
                    decreases result.artifacts@.len() - i,
                {
                    let c = match &result.artifacts[i].checksum {
                        Some(s) => Some(s.as_str()),
                        None => None,
                    };
                    let st = verify_checksum(c, c);
                    proof {
                        let rest = result.artifacts@.subrange(i as int, result.artifacts@.len() as int);
                        assert(rest[0] == result.artifacts@[i as int]);
                        assert(rest.drop_first() =~= result.artifacts@.subrange(i + 1, result.artifacts@.len() as int));
                    }
                    match st {
                        ArtifactChecksumStatus::Matches | ArtifactChecksumStatus::Missing => {},
                        ArtifactChecksumStatus::Mismatch => {
                            let m = string_of("checksum Mismatch");
                            let ghost mv = m;
                            let e = fail_or_retry(store, queue, policy, claim_token, job_id, attempt, status, m, now);
                            assert(fail_post(*old(store), *old(queue), *policy, claim_token@, job_id@, attempt, *status, mv, now, *store, *queue, e));
                            return Ok(e);
                        },
                    }
                    i += 1;
                }
            }
            let ghost fin_v = fin;
            let ghost res_v = result;
            store.update_job(fin)?;
            store.set_result(result)?;
            queue.ack(claim_token)?;
            Ok(AttemptEnd::Completed)
        },
        Err(err) => Ok(fail_or_retry(store, queue, policy, claim_token, job_id, attempt, status, err, now)),
    }
}


// ---------------------------------------------------------------------------
// Review jobs
// ---------------------------------------------------------------------------

/// An asset made from one input of a job: the input asset's id, the made asset, and the
/// width and height of its picture.
#[derive(Debug)]
pub struct GeneratedAsset {
    pub input_id: String,
    pub asset: RemoteAssetRef,
    pub dimensions: (u32, u32),
}

impl Keyed for GeneratedAsset {
    open spec fn key(&self) -> Seq<char> {
        self.input_id@
    }

    fn key_ref(&self) -> (r: &String) {
        &self.input_id
    }
}

/// Review item `new` is `old` with generated asset `g` attached at `now`: `g` becomes its
/// thumbnail, and its preview too unless only thumbnails are attached; its width and
/// height become `g`'s.
pub open spec fn attached(old: RemoteReviewItem, new: RemoteReviewItem, g: GeneratedAsset, thumbnail_only: bool, now: u64) -> bool {
    &&& new.thumb_asset == Some(g.asset)
    &&& new.preview_asset == (if thumbnail_only { old.preview_asset } else { Some(g.asset) })
    &&& new.width == Some(g.dimensions.0) && new.height == Some(g.dimensions.1)
    &&& new.duration_ms == old.duration_ms
    &&& new.updated_at == now
    &&& new.item_id == old.item_id && new.batch_id == old.batch_id && new.asset == old.asset
    &&& new.status == old.status && new.remark == old.remark && new.tags@ == old.tags@
    &&& new.schema_version == old.schema_version
}

/// What attaching generated assets to batch `batch_id` does to item `k`: an item of the
/// batch whose asset has a generated asset (the last one made for it) gets it attached;
/// every other item stays as it was.
pub open spec fn attach_outcome(old: InMemoryJobStore, new: InMemoryJobStore, k: Seq<char>, batch_id: Seq<char>, generated: Seq<GeneratedAsset>, thumbnail_only: bool, now: u64) -> bool {
    match old.item(k) {
        Some(it) => if it.batch_id@ == batch_id && crate::keyed::last_by_key(generated, it.asset.id@) is Some {
            new.item(k) matches Some(n) && attached(it, n, crate::keyed::last_by_key(generated, it.asset.id@).unwrap(), thumbnail_only, now)
        } else {
            new.item(k) == Some(it)
        },
        None => new.item(k) is None,
    }
}

/// Attaches the generated assets to the items of batch `batch_id` whose asset they were
/// made from, in the order of the batch's listing.
pub fn attach_generated_assets(store: &mut InMemoryJobStore, batch_id: &str, generated: &Vec<GeneratedAsset>, thumbnail_only: bool, now: u64) -> (r: Result<(), String>)
    requires
        old(store).wf(),
    ensures
        final(store).wf(),
        r is Ok,
        final(store).jobs_view() == old(store).jobs_view(),
        final(store).assets_view() == old(store).assets_view(),
        final(store).next_id_view() == old(store).next_id_view(),
        forall|k: Seq<char>| #[trigger] attach_outcome(*old(store), *final(store), k, batch_id@, generated@, thumbnail_only, now),
{
    let ghost s0 = *store;
    let items = match store.list_review_items(batch_id) {
        Ok(v) => v,
        Err(e) => return Err(e.to_message()),
    };
    let ghost v = items@;
    proof {
        assert forall|a: int, b: int| 0 <= a < v.len() && 0 <= b < v.len() && a != b implies v[a].item_id@ != v[b].item_id@ by {
            crate::sorting::lemma_lex_irreflexive(v[a].item_id@);
            if a < b {
                assert(crate::sorting::lex_lt(v[a].key(), v[b].key()));
            } else {
                assert(crate::sorting::lex_lt(v[b].key(), v[a].key()));
            }
        }
    }
    let mut i: usize = 0;
    while i < items.len()
        invariant
            i <= v.len(),
            v == items@,
            store.wf(),
            s0.wf(),
            store.jobs_view() == s0.jobs_view(),
            store.assets_view() == s0.assets_view(),
            store.next_id_view() == s0.next_id_view(),
            forall|a: int, b: int| 0 <= a < v.len() && 0 <= b < v.len() && a != b ==> v[a].item_id@ != v[b].item_id@,
            forall|j: int| 0 <= j < v.len() ==> #[trigger] crate::server::storage::batch_entry(s0, v[j], batch_id@),
            crate::server::storage::lists_whole_batch(s0, v, batch_id@),
            forall|k: Seq<char>| #![trigger store.item(k)] {
                if exists|j: int| 0 <= j < i && v[j].item_id@ == k {
                    attach_outcome(s0, *store, k, batch_id@, generated@, thumbnail_only, now)
                } else {
                    store.item(k) == s0.item(k)
                }
            },
        decreases v.len() - i,
    {
        let ghost before = *store;
        let ghost ki = v[i as int].item_id@;
        assert(crate::server::storage::batch_entry(s0, v[i as int], batch_id@));
        proof {
            assert(!exists|j: int| 0 <= j < i && v[j].item_id@ == ki);
            assert(before.item(ki) == s0.item(ki));
        }
        match crate::keyed::find_last_key(generated, &items[i].asset.id) {
            Some(g) => {
                let preview = if thumbnail_only { None } else { Some(generated[g].asset.clone()) };
                match store.update_review_item_assets_at(
                    items[i].item_id.as_str(),
                    Some(generated[g].asset.clone()),
                    preview,
                    None,
                    Some(generated[g].dimensions),
                    now,
                ) {
                    Ok(_) => {},
                    Err(e) => return Err(e.to_message()),
                }
            },
            None => {},
        }
        proof {
            assert forall|k: Seq<char>| #![trigger store.item(k)] (if exists|j: int| 0 <= j < i + 1 && v[j].item_id@ == k {
                attach_outcome(s0, *store, k, batch_id@, generated@, thumbnail_only, now)
            } else {
                store.item(k) == s0.item(k)
            }) by {
                if k == ki {
                    assert(v[i as int].item_id@ == k);
                } else {
                    if exists|j: int| 0 <= j < i + 1 && v[j].item_id@ == k {
                        let j = choose|j: int| 0 <= j < i + 1 && v[j].item_id@ == k;
                        assert(j < i);
                    }
                }
            }
        }
        i += 1;
    }
    proof {
        assert forall|k: Seq<char>| #[trigger] attach_outcome(s0, *store, k, batch_id@, generated@, thumbnail_only, now) by {
            if exists|j: int| 0 <= j < v.len() && v[j].item_id@ == k {
            } else {
                match s0.item(k) {
                    Some(it) => {
                        if it.batch_id@ == batch_id@ {
                            assert(exists|j: int| 0 <= j < v.len() && #[trigger] v[j].item_id@ == k);
                        }
                    },
                    None => {},
                }
            }
        }
    }
    Ok(())
}


/// The name of the batch that a review job makes: its `batch_name` parameter, else
/// `<prefix> <job id>`.
pub open spec fn review_batch_name(request: RemoteJobRequest, prefix: Seq<char>, job_id: Seq<char>) -> Seq<char> {
    match non_blank(value_of(request.extras@, "batch_name"@)) {
        Some(n) => n,
        None => prefix + " "@ + job_id,
    }
}

/// Every input of the job is a registered asset.
pub open spec fn inputs_registered(store: InMemoryJobStore, request: RemoteJobRequest) -> bool {
    forall|j: int| 0 <= j < request.inputs@.len() ==> #[trigger] store.asset(request.inputs@[j].id@) is Some
}

fn named_or_default(request: &RemoteJobRequest, key: &str, prefix: &str, job_id: &str) -> (r: String)
    ensures
        r@ == match non_blank(value_of(request.extras@, key@)) {
            Some(n) => n,
            None => prefix@ + " "@ + job_id@,
        },
{
    match extra_value(request, key) {
        Some(v) => v,
        None => {
            let mut out: Vec<char> = Vec::new();
            push_str(&mut out, prefix);
            push_str(&mut out, " ");
            push_str(&mut out, job_id);
            string_from_chars(&out)
        },
    }
}

/// `new` is store `old` once the batch `b` of review job `job_id` is found or made: the
/// batch that the `batch_id` parameter names, with the store unchanged; or else a new
/// pending batch over the job's inputs, with one pending item per input, in order.
pub open spec fn review_batch_resolved(
    old: InMemoryJobStore,
    new: InMemoryJobStore,
    config: ServerConfig,
    job_id: Seq<char>,
    request: RemoteJobRequest,
    kind: RemoteBatchKind,
    prefix: Seq<char>,
    now: u64,
    b: RemoteBatch,
) -> bool {
    &&& new.jobs_view() == old.jobs_view()
    &&& new.assets_view() == old.assets_view()
    &&& match non_blank(value_of(request.extras@, "batch_id"@)) {
        Some(bid) => new == old && old.batch(bid) == Some(b),
        None => {
            let n0 = old.next_id_view() as nat;
            let len = request.inputs@.len();
            &&& new.batch(b.batch_id@) == Some(b)
            &&& b.batch_id@ == crate::server::storage::numbered_id("batch"@, n0 + 1)
            &&& b.name@ == review_batch_name(request, prefix, job_id)
            &&& b.kind == kind
            &&& b.workspace_id == Some(match request.workspace_id {
                Some(w) => w,
                None => config.default_workspace,
            })
            &&& b.item_count == len
            &&& b.created_at == now
            &&& forall|j: int| 0 <= j < len ==> {
                let it = #[trigger] new.item(crate::server::storage::batch_item_id(n0, j));
                &&& it matches Some(item)
                &&& item.item_id@ == crate::server::storage::batch_item_id(n0, j)
                &&& item.batch_id@ == b.batch_id@
                &&& Some(item.asset) == old.asset(request.inputs@[j].id@)
                &&& item.status == crate::server::models::RemoteReviewItemStatus::Pending
                &&& item.remark@.len() == 0
                &&& item.tags@.len() == 0
                &&& item.thumb_asset is None && item.preview_asset is None
                &&& item.duration_ms is None && item.width is None && item.height is None
                &&& item.updated_at == now
            }
            &&& forall|k: Seq<char>| (forall|j: int| 0 <= j < len ==> k != #[trigger] crate::server::storage::batch_item_id(n0, j))
                ==> #[trigger] new.item(k) == old.item(k)
        },
    }
}

/// The batch that a review job's items go to: the one that its `batch_id` parameter names,
/// else a new batch of kind `kind`, named `review_batch_name`, in the job's workspace,
/// with one item per input.
pub fn resolve_review_batch(store: &mut InMemoryJobStore, config: &ServerConfig, job_id: &str, request: &RemoteJobRequest, kind: RemoteBatchKind, prefix: &str, now: u64) -> (r: Result<RemoteBatch, String>)
    requires
        old(store).wf(),
        old(store).next_id_view() + 1 + request.inputs@.len() <= u64::MAX,
    ensures
        final(store).wf(),
        final(store).jobs_view() == old(store).jobs_view(),
        final(store).assets_view() == old(store).assets_view(),
        match non_blank(value_of(request.extras@, "batch_id"@)) {
            Some(bid) => *final(store) == *old(store) && match old(store).batch(bid) {
                Some(b) => r == Ok::<RemoteBatch, String>(b),
                None => r is Err,
            },
            None => r is Ok <==> inputs_registered(*old(store), *request),
        },
        r matches Ok(b) ==> review_batch_resolved(*old(store), *final(store), *config, job_id@, *request, kind, prefix@, now, b),
{
    match extra_value(request, "batch_id") {
        Some(bid) => {
            match store.get_batch(bid.as_str()) {
                Ok(b) => Ok(b),
                Err(e) => Err(e.to_message()),
            }
        },
        None => {
            let name = named_or_default(request, "batch_name", prefix, job_id);
            let mut ids: Vec<String> = Vec::new();
            let mut i: usize = 0;
            while i < request.inputs.len()
                invariant
                    i <= request.inputs@.len(),
                    ids@.len() == i,
                    forall|j: int| 0 <= j < i ==> #[trigger] ids@[j]@ == request.inputs@[j].id@,
                decreases request.inputs@.len() - i,
            {
                ids.push(request.inputs[i].id.clone());
                i += 1;
            }
            let batch_request = CreateRemoteBatchRequest {
                name,
                kind,
                workspace_id: workspace_id_for(config, request),
                asset_ids: ids,
            };
            proof {
                if inputs_registered(*old(store), *request) {
                    assert forall|j: int| 0 <= j < batch_request.asset_ids@.len() implies #[trigger] old(store).asset(batch_request.asset_ids@[j]@) is Some by {
                        assert(old(store).asset(request.inputs@[j].id@) is Some);
                    }
                } else {
                    let j = choose|j: int| 0 <= j < request.inputs@.len() && !(#[trigger] old(store).asset(request.inputs@[j].id@) is Some);
                    assert(ids@[j]@ == request.inputs@[j].id@);
                    assert(!(old(store).asset(batch_request.asset_ids@[j]@) is Some));
                }
            }
            match store.create_batch_at(batch_request, now) {
                Ok(b) => Ok(b),
                Err(e) => Err(e.to_message()),
            }
        },
    }
}

/// The result of a review job that handled its `n` inputs, with the assets it made.
pub open spec fn review_result_ok(res: RemoteJobResult, job_id: Seq<char>, n: usize, artifacts: Seq<RemoteAssetRef>, now: u64) -> bool {
    &&& res.schema_version == REMOTE_SCHEMA_VERSION
    &&& res.job_id@ == job_id
    &&& res.phase == RemoteJobPhase::Succeeded
    &&& res.successes == n
    &&& res.failures == 0
    &&& res.artifacts@ == artifacts
    &&& res.error_summary is None
    &&& res.updated_at == now
}

/// Ends a review job whose `n` inputs were handled and which made `artifacts`, and
/// `generated` from its inputs: finds or makes its batch, attaches the generated assets
/// to the batch's items, and marks the job succeeded with all `n` done.
pub fn finish_review_job(
    store: &mut InMemoryJobStore,
    config: &ServerConfig,
    job_id: &str,
    request: &RemoteJobRequest,
    kind: RemoteBatchKind,
    prefix: &str,
    generated: &Vec<GeneratedAsset>,
    thumbnail_only: bool,
    artifacts: Vec<RemoteAssetRef>,
    n: usize,
    now: u64,
) -> (r: Result<(RemoteJobResult, RemoteJobStatus), String>)
    requires
        old(store).wf(),
        old(store).next_id_view() + 1 + request.inputs@.len() <= u64::MAX,
    ensures
        final(store).wf(),
        final(store).jobs_view() == old(store).jobs_view(),
        final(store).assets_view() == old(store).assets_view(),
        r matches Ok((res, st)) ==> {
            &&& review_result_ok(res, job_id@, n, artifacts@, now)
            &&& old(store).job(job_id@) matches Some(rec) && st == RemoteJobStatus {
                phase: RemoteJobPhase::Succeeded,
                processed: n,
                total: n,
                log_summary: None,
                updated_at: now,
                ..rec.status
            }
        },
        old(store).job(job_id@) is None ==> r is Err,
        (non_blank(value_of(request.extras@, "batch_id"@)) matches Some(bid) && old(store).batch(bid) is None) ==> r is Err,
        (non_blank(value_of(request.extras@, "batch_id"@)) is None && !inputs_registered(*old(store), *request)) ==> r is Err,
        (old(store).job(job_id@) is Some && match non_blank(value_of(request.extras@, "batch_id"@)) {
            Some(bid) => old(store).batch(bid) is Some,
            None => inputs_registered(*old(store), *request),
        }) ==> r is Ok,
        (r is Ok && non_blank(value_of(request.extras@, "batch_id"@)) is Some) ==> forall|k: Seq<char>|
            #[trigger] attach_outcome(*old(store), *final(store), k, non_blank(value_of(request.extras@, "batch_id"@)).unwrap(),
                generated@, thumbnail_only, now),
        r is Ok ==> exists|mid: InMemoryJobStore, b: RemoteBatch|
            #[trigger] review_batch_resolved(*old(store), mid, *config, job_id@, *request, kind, prefix@, now, b)
            && forall|k: Seq<char>| #[trigger] attach_outcome(mid, *final(store), k, b.batch_id@, generated@, thumbnail_only, now),
{
    let batch = resolve_review_batch(store, config, job_id, request, kind, prefix, now)?;
    let ghost mid = *store;
    proof {
        if non_blank(value_of(request.extras@, "batch_id"@)) is Some {
            crate::keyed::lemma_lookup_at(mid.batches_view(), crate::keyed::key_index(mid.batches_view(), non_blank(value_of(request.extras@, "batch_id"@)).unwrap()));
        }
    }
    attach_generated_assets(store, batch.batch_id.as_str(), generated, thumbnail_only, now)?;
    assert(review_batch_resolved(*old(store), mid, *config, job_id@, *request, kind, prefix@, now, batch));
    let status = match succeeded_status(store, job_id, n, n, None, now) {
        Ok(s) => s,
        Err(e) => return Err(e.to_message()),
    };
    let result = RemoteJobResult {
        schema_version: REMOTE_SCHEMA_VERSION,
        job_id: string_of(job_id),
        phase: RemoteJobPhase::Succeeded,
        successes: n,
        failures: 0,
        artifacts,
        error_summary: None,
        updated_at: now,
    };
    Ok((result, status))
}

/// The catalogue entry of a data-extraction job's report: `extract-<job id>`, for the
/// module that its `module` parameter names (else `remote_data_extract`), under the name
/// that its `batch_name` parameter gives (else `Data Extract <job id>`).
pub fn record_extract_result(store: &mut InMemoryJobStore, job_id: &str, request: &RemoteJobRequest, report_asset: RemoteAssetRef, now: u64) -> (r: RemoteExtractResultSummary)
    requires
        old(store).wf(),
    ensures
        final(store).wf(),
        final(store).jobs_view() == old(store).jobs_view(),
        r.result_id@ == "extract-"@ + job_id@,
        r.module@ == match non_blank(value_of(request.extras@, "module"@)) {
            Some(m) => m,
            None => "remote_data_extract"@,
        },
        r.batch_name@ == review_batch_name(*request, "Data Extract"@, job_id@),
        r.updated_at == now,
        r.report_asset == Some(report_asset),
        upserted(old(store).extract_results_view(), final(store).extract_results_view(), r),
{
    let mut rid: Vec<char> = Vec::new();
    push_str(&mut rid, "extract-");
    push_str(&mut rid, job_id);
    let module = match extra_value(request, "module") {
        Some(m) => m,
        None => string_of("remote_data_extract"),
    };
    let batch_name = named_or_default(request, "batch_name", "Data Extract", job_id);
    let summary = RemoteExtractResultSummary {
        result_id: string_from_chars(&rid),
        module,
        batch_name,
        updated_at: now,
        report_asset: Some(report_asset),
    };
    let kept = summary.clone();
    let _ = store.upsert_extract_result(summary);
    kept
}

/// Ends a data-extraction job over `n` inputs whose report is `report_asset`: records the
/// catalogue entry and marks the job succeeded with the report as its one artifact.
pub fn finish_extract_job(store: &mut InMemoryJobStore, job_id: &str, request: &RemoteJobRequest, report_asset: RemoteAssetRef, n: usize, now: u64) -> (r: Result<(RemoteJobResult, RemoteJobStatus), String>)
    requires
        old(store).wf(),
    ensures
        final(store).wf(),
        final(store).jobs_view() == old(store).jobs_view(),
        r is Ok <==> old(store).job(job_id@) is Some,
        r matches Ok((res, st)) ==> {
            &&& review_result_ok(res, job_id@, n, seq![report_asset], now)
            &&& old(store).job(job_id@) matches Some(rec) && st == RemoteJobStatus {
                phase: RemoteJobPhase::Succeeded,
                processed: n,
                total: n,
                log_summary: None,
                updated_at: now,
                ..rec.status
            }
        },
        lookup(final(store).extract_results_view(), "extract-"@ + job_id@) matches Some(e)
            && e.report_asset == Some(report_asset) && e.updated_at == now,
{
    let kept = report_asset.clone();
    let summary = record_extract_result(store, job_id, request, report_asset, now);
    let status = match succeeded_status(store, job_id, n, n, None, now) {
        Ok(s) => s,
        Err(e) => return Err(e.to_message()),
    };
    let mut artifacts: Vec<RemoteAssetRef> = Vec::new();
    artifacts.push(kept);
    let result = RemoteJobResult {
        schema_version: REMOTE_SCHEMA_VERSION,
        job_id: string_of(job_id),
        phase: RemoteJobPhase::Succeeded,
        successes: n,
        failures: 0,
        artifacts,
        error_summary: None,
        updated_at: now,
    };
    proof {
        assert(result.artifacts@ =~= seq![report_asset]);
    }
    Ok((result, status))
}

} // verus!
