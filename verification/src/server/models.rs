//! Records exchanged with remote clients and kept by the metadata store.
use vstd::prelude::*;

use crate::keyed::Keyed;
use crate::text::{decimal, push_decimal, push_str, string_from_chars};

verus! {

/// Version stamped on every record the server produces.
pub const REMOTE_SCHEMA_VERSION: u32 = 1;

/// Which pipeline a job runs.
#[derive(Debug, Clone, Copy, PartialEq, Eq, Structural)]
pub enum RemoteJobSource {
    Convert,
    Review,
    VideoReview,
    DataExtract,
}

/// Life-cycle phase of a job.
#[derive(Debug, Clone, Copy, PartialEq, Eq, Structural)]
pub enum RemoteJobPhase {
    Queued,
    Running,
    Succeeded,
    Failed,
    Cancelled,
}

/// Kind of media in a review batch.
#[derive(Debug, Clone, Copy, PartialEq, Eq, Structural)]
pub enum RemoteBatchKind {
    Image,
    Video,
}

/// Review verdict of one batch item.
#[derive(Debug, Clone, Copy, PartialEq, Eq, Structural)]
pub enum RemoteReviewItemStatus {
    Pending,
    Approved,
    Rejected,
    NeedsFix,
}

/// Clones an optional string, keeping its value.
pub fn clone_opt_string(s: &Option<String>) -> (r: Option<String>)
    ensures
        r == *s,
{
    match s {
        Some(v) => Some(v.clone()),
        None => None,
    }
}

/// Clones a vector of strings, keeping its value.
pub fn clone_strings(v: &Vec<String>) -> (r: Vec<String>)
    ensures
        r@ == v@,
{
    let mut r: Vec<String> = Vec::new();
    let mut i: usize = 0;
    while i < v.len()
        invariant
            i <= v@.len(),
            r@ == v@.subrange(0, i as int),
        decreases v@.len() - i,
    {
        r.push(v[i].clone());
        i += 1;
        assert(r@ =~= v@.subrange(0, i as int));
    }
    assert(r@ =~= v@);
    r
}

/// A stored object as seen by clients.
#[derive(Debug)]
pub struct RemoteAssetRef {
    pub id: String,
    pub name: String,
    pub mime: Option<String>,
    pub size: Option<u64>,
    pub checksum: Option<String>,
    pub download_url: Option<String>,
}

impl Clone for RemoteAssetRef {
    fn clone(&self) -> (r: Self)
        ensures
            r == *self,
    {
        RemoteAssetRef {
            id: self.id.clone(),
            name: self.name.clone(),
            mime: clone_opt_string(&self.mime),
            size: self.size,
            checksum: clone_opt_string(&self.checksum),
            download_url: clone_opt_string(&self.download_url),
        }
    }
}

impl Keyed for RemoteAssetRef {
    open spec fn key(&self) -> Seq<char> {
        self.id@
    }

    fn key_ref(&self) -> (r: &String) {
        &self.id
    }
}

/// Clones a vector of asset references, keeping its value.
pub fn clone_assets(v: &Vec<RemoteAssetRef>) -> (r: Vec<RemoteAssetRef>)
    ensures
        r@ == v@,
{
    let mut r: Vec<RemoteAssetRef> = Vec::new();
    let mut i: usize = 0;
    while i < v.len()
        invariant
            i <= v@.len(),
            r@ == v@.subrange(0, i as int),
        decreases v@.len() - i,
    {
        r.push(v[i].clone());
        i += 1;
        assert(r@ =~= v@.subrange(0, i as int));
    }
    assert(r@ =~= v@);
    r
}

/// Clones an optional asset reference, keeping its value.
pub fn clone_opt_asset(a: &Option<RemoteAssetRef>) -> (r: Option<RemoteAssetRef>)
    ensures
        r == *a,
{
    match a {
        Some(v) => Some(v.clone()),
        None => None,
    }
}

/// Clones a vector of key/value string pairs, keeping its value.
pub fn clone_pairs(v: &Vec<(String, String)>) -> (r: Vec<(String, String)>)
    ensures
        r@ == v@,
{
    let mut r: Vec<(String, String)> = Vec::new();
    let mut i: usize = 0;
    while i < v.len()
        invariant
            i <= v@.len(),
            r@ == v@.subrange(0, i as int),
        decreases v@.len() - i,
    {
        r.push((v[i].0.clone(), v[i].1.clone()));
        i += 1;
        assert(r@ =~= v@.subrange(0, i as int));
    }
    assert(r@ =~= v@);
    r
}

/// A job submitted by a client.
#[derive(Debug)]
pub struct RemoteJobRequest {
    pub schema_version: u32,
    pub source: RemoteJobSource,
    pub workspace_id: Option<String>,
    pub client_request_id: Option<String>,
    pub inputs: Vec<RemoteAssetRef>,
    /// Free-form `key = value` parameters.
    pub extras: Vec<(String, String)>,
}

impl RemoteJobRequest {
    /// A conversion job with no inputs, workspace or request id.
    pub fn default_request() -> (r: Self)
        ensures
            r.schema_version == REMOTE_SCHEMA_VERSION,
            r.source == RemoteJobSource::Convert,
            r.workspace_id is None,
            r.client_request_id is None,
            r.inputs@.len() == 0,
            r.extras@.len() == 0,
    {
        RemoteJobRequest {
            schema_version: REMOTE_SCHEMA_VERSION,
            source: RemoteJobSource::Convert,
            workspace_id: None,
            client_request_id: None,
            inputs: Vec::new(),
            extras: Vec::new(),
        }
    }
}

impl Clone for RemoteJobRequest {
    fn clone(&self) -> (r: Self)
        ensures
            r.schema_version == self.schema_version,
            r.source == self.source,
            r.workspace_id == self.workspace_id,
            r.client_request_id == self.client_request_id,
            r.inputs@ == self.inputs@,
            r.extras@ == self.extras@,
    {
        RemoteJobRequest {
            schema_version: self.schema_version,
            source: self.source,
            workspace_id: clone_opt_string(&self.workspace_id),
            client_request_id: clone_opt_string(&self.client_request_id),
            inputs: clone_assets(&self.inputs),
            extras: clone_pairs(&self.extras),
        }
    }
}

/// Progress record of a job.
#[derive(Debug)]
pub struct RemoteJobStatus {
    pub schema_version: u32,
    pub job_id: String,
    pub source: RemoteJobSource,
    pub phase: RemoteJobPhase,
    pub processed: usize,
    pub total: usize,
    pub log_summary: Option<String>,
    pub error_summary: Option<String>,
    pub created_at: u64,
    pub updated_at: u64,
}

impl RemoteJobStatus {
    /// A fresh status for `job_id` in `phase`, created and updated at `now`.
    pub fn new(job_id: String, source: RemoteJobSource, phase: RemoteJobPhase, now: u64) -> (r:
        Self)
        ensures
            r.schema_version == REMOTE_SCHEMA_VERSION,
            r.job_id == job_id,
            r.source == source,
            r.phase == phase,
            r.processed == 0,
            r.total == 0,
            r.log_summary is None,
            r.error_summary is None,
            r.created_at == now,
            r.updated_at == now,
    {
        RemoteJobStatus {
            schema_version: REMOTE_SCHEMA_VERSION,
            job_id,
            source,
            phase,
            processed: 0,
            total: 0,
            log_summary: None,
            error_summary: None,
            created_at: now,
            updated_at: now,
        }
    }
}

impl Clone for RemoteJobStatus {
    fn clone(&self) -> (r: Self)
        ensures
            r == *self,
    {
        RemoteJobStatus {
            schema_version: self.schema_version,
            job_id: self.job_id.clone(),
            source: self.source,
            phase: self.phase,
            processed: self.processed,
            total: self.total,
            log_summary: clone_opt_string(&self.log_summary),
            error_summary: clone_opt_string(&self.error_summary),
            created_at: self.created_at,
            updated_at: self.updated_at,
        }
    }
}

impl Keyed for RemoteJobStatus {
    open spec fn key(&self) -> Seq<char> {
        self.job_id@
    }

    fn key_ref(&self) -> (r: &String) {
        &self.job_id
    }
}

/// Summary line of a job in listings.
#[derive(Debug)]
pub struct RemoteJobSummary {
    pub job_id: String,
    pub source: RemoteJobSource,
    pub phase: RemoteJobPhase,
    pub processed: usize,
    pub total: usize,
    pub updated_at: u64,
}

/// The summary of a status.
pub open spec fn summary_of(s: RemoteJobStatus) -> RemoteJobSummary {
    RemoteJobSummary {
        job_id: s.job_id,
        source: s.source,
        phase: s.phase,
        processed: s.processed,
        total: s.total,
        updated_at: s.updated_at,
    }
}

impl RemoteJobSummary {
    pub fn from_status(s: &RemoteJobStatus) -> (r: Self)
        ensures
            r == summary_of(*s),
    {
        RemoteJobSummary {
            job_id: s.job_id.clone(),
            source: s.source,
            phase: s.phase,
            processed: s.processed,
            total: s.total,
            updated_at: s.updated_at,
        }
    }
}

/// What a job event reports.
#[derive(Debug, Clone, Copy, PartialEq, Eq, Structural)]
pub enum RemoteJobEventKind {
    PhaseChange,
    Heartbeat,
}

/// An event of a job, as streamed to clients: a change of phase, or a worker's heartbeat
/// with its progress counts and a note.
#[derive(Debug)]
pub struct RemoteJobEvent {
    pub schema_version: u32,
    pub job_id: String,
    pub source: RemoteJobSource,
    pub kind: RemoteJobEventKind,
    pub phase: Option<RemoteJobPhase>,
    pub processed: Option<usize>,
    pub total: Option<usize>,
    pub message: Option<String>,
    pub ts: u64,
}

/// The event of job `job_id` entering `phase` at `ts`.
pub open spec fn phase_event(job_id: String, source: RemoteJobSource, phase: RemoteJobPhase, ts: u64) -> RemoteJobEvent {
    RemoteJobEvent {
        schema_version: REMOTE_SCHEMA_VERSION,
        job_id,
        source,
        kind: RemoteJobEventKind::PhaseChange,
        phase: Some(phase),
        processed: None,
        total: None,
        message: None,
        ts,
    }
}

/// `worker=<worker> attempt=<attempt>`.
pub open spec fn heartbeat_note(worker_id: Seq<char>, attempt: u32) -> Seq<char> {
    "worker="@ + worker_id + " attempt="@ + decimal(attempt as nat)
}

impl RemoteJobEvent {
    pub fn phase_change(job_id: &String, source: RemoteJobSource, phase: RemoteJobPhase, ts: u64) -> (r: Self)
        ensures
            r == phase_event(*job_id, source, phase, ts),
    {
        RemoteJobEvent {
            schema_version: REMOTE_SCHEMA_VERSION,
            job_id: job_id.clone(),
            source,
            kind: RemoteJobEventKind::PhaseChange,
            phase: Some(phase),
            processed: None,
            total: None,
            message: None,
            ts,
        }
    }

    /// The heartbeat of a worker starting attempt `attempt` of a job: running, with the
    /// job's counts and `worker=<worker> attempt=<attempt>`.
    pub fn heartbeat(job_id: &String, source: RemoteJobSource, processed: usize, total: usize, worker_id: &str, attempt: u32, ts: u64) -> (r: Self)
        ensures
            r.schema_version == REMOTE_SCHEMA_VERSION,
            r.job_id == *job_id,
            r.source == source,
            r.kind == RemoteJobEventKind::Heartbeat,
            r.phase == Some(RemoteJobPhase::Running),
            r.processed == Some(processed),
            r.total == Some(total),
            r.message matches Some(m) && m@ == heartbeat_note(worker_id@, attempt),
            r.ts == ts,
    {
        let mut note: Vec<char> = Vec::new();
        push_str(&mut note, "worker=");
        push_str(&mut note, worker_id);
        push_str(&mut note, " attempt=");
        push_decimal(&mut note, attempt as u64);
        RemoteJobEvent {
            schema_version: REMOTE_SCHEMA_VERSION,
            job_id: job_id.clone(),
            source,
            kind: RemoteJobEventKind::Heartbeat,
            phase: Some(RemoteJobPhase::Running),
            processed: Some(processed),
            total: Some(total),
            message: Some(string_from_chars(&note)),
            ts,
        }
    }
}

impl Clone for RemoteJobEvent {
    fn clone(&self) -> (r: Self)
        ensures
            r == *self,
    {
        RemoteJobEvent {
            schema_version: self.schema_version,
            job_id: self.job_id.clone(),
            source: self.source,
            kind: self.kind,
            phase: self.phase,
            processed: self.processed,
            total: self.total,
            message: clone_opt_string(&self.message),
            ts: self.ts,
        }
    }
}

/// Final outcome of a job.
#[derive(Debug)]
pub struct RemoteJobResult {
    pub schema_version: u32,
    pub job_id: String,
    pub phase: RemoteJobPhase,
    pub successes: usize,
    pub failures: usize,
    pub artifacts: Vec<RemoteAssetRef>,
    pub error_summary: Option<String>,
    pub updated_at: u64,
}

impl Keyed for RemoteJobResult {
    open spec fn key(&self) -> Seq<char> {
        self.job_id@
    }

    fn key_ref(&self) -> (r: &String) {
        &self.job_id
    }
}

impl RemoteJobResult {
    pub fn clone_result(&self) -> (r: Self)
        ensures
            r.schema_version == self.schema_version,
            r.job_id == self.job_id,
            r.phase == self.phase,
            r.successes == self.successes,
            r.failures == self.failures,
            r.artifacts@ == self.artifacts@,
            r.error_summary == self.error_summary,
            r.updated_at == self.updated_at,
    {
        RemoteJobResult {
            schema_version: self.schema_version,
            job_id: self.job_id.clone(),
            phase: self.phase,
            successes: self.successes,
            failures: self.failures,
            artifacts: clone_assets(&self.artifacts),
            error_summary: clone_opt_string(&self.error_summary),
            updated_at: self.updated_at,
        }
    }
}

/// Start of an upload as requested by a client.
#[derive(Debug)]
pub struct RemoteUploadInitRequest {
    pub workspace_id: Option<String>,
    pub file_name: String,
    pub size: Option<u64>,
    pub checksum: Option<String>,
    pub mime: Option<String>,
}

impl Clone for RemoteUploadInitRequest {
    fn clone(&self) -> (r: Self)
        ensures
            r == *self,
    {
        RemoteUploadInitRequest {
            workspace_id: clone_opt_string(&self.workspace_id),
            file_name: self.file_name.clone(),
            size: self.size,
            checksum: clone_opt_string(&self.checksum),
            mime: clone_opt_string(&self.mime),
        }
    }
}

/// Where and how a client sends the bytes of an upload.
#[derive(Debug)]
pub struct RemoteUploadSession {
    pub schema_version: u32,
    pub upload_id: String,
    pub put_url: String,
    pub part_size: u64,
    pub expires_in_secs: u64,
}

impl RemoteUploadSession {
    /// A session in which the whole file goes in one PUT.
    pub fn single_put(upload_id: String, put_url: String, part_size: u64, expires_in_secs: u64) -> (r: Self)
        ensures
            r.schema_version == REMOTE_SCHEMA_VERSION,
            r.upload_id == upload_id,
            r.put_url == put_url,
            r.part_size == part_size,
            r.expires_in_secs == expires_in_secs,
    {
        RemoteUploadSession { schema_version: REMOTE_SCHEMA_VERSION, upload_id, put_url, part_size, expires_in_secs }
    }
}

/// Completion of an upload as requested by a client.
#[derive(Debug)]
pub struct RemoteUploadCompleteRequest {
    pub upload_id: String,
    pub checksum: Option<String>,
}

/// The asset an upload became.
#[derive(Debug)]
pub struct RemoteUploadCompleteResponse {
    pub schema_version: u32,
    pub asset: RemoteAssetRef,
}

/// Short-lived download location of an asset.
#[derive(Debug)]
pub struct RemoteDownloadCredential {
    pub schema_version: u32,
    pub asset_id: String,
    pub download_url: String,
    pub expires_at: u64,
    pub checksum: Option<String>,
}

/// Paging parameters of a listing.
#[derive(Debug)]
pub struct RemotePageQuery {
    pub limit: usize,
    pub offset: usize,
    pub workspace_id: Option<String>,
    pub cursor: Option<String>,
}

/// One page of a listing and the size of the whole listing.
#[derive(Debug)]
pub struct RemotePage<T> {
    pub items: Vec<T>,
    pub total: usize,
}

impl<T> RemotePage<T> {
    pub fn new(items: Vec<T>, total: usize) -> (r: Self)
        ensures
            r.items@ == items@,
            r.total == total,
    {
        RemotePage { items, total }
    }
}

/// An asset in the asset listing.
#[derive(Debug)]
pub struct RemoteAssetListItem {
    pub asset: RemoteAssetRef,
    pub created_at: Option<u64>,
    pub tags: Option<Vec<String>>,
}

impl Keyed for RemoteAssetListItem {
    open spec fn key(&self) -> Seq<char> {
        self.asset.id@
    }

    fn key_ref(&self) -> (r: &String) {
        &self.asset.id
    }
}

/// Record of a job given up after too many attempts.
#[derive(Debug)]
pub struct DeadLetterRecord {
    pub schema_version: u32,
    pub job_id: String,
    pub attempts: u32,
    pub last_error: String,
    pub dead_lettered_at: u64,
}

impl Clone for DeadLetterRecord {
    fn clone(&self) -> (r: Self)
        ensures
            r == *self,
    {
        DeadLetterRecord {
            schema_version: self.schema_version,
            job_id: self.job_id.clone(),
            attempts: self.attempts,
            last_error: self.last_error.clone(),
            dead_lettered_at: self.dead_lettered_at,
        }
    }
}

/// Request to create a review batch from existing assets.
#[derive(Debug)]
pub struct CreateRemoteBatchRequest {
    pub name: String,
    pub kind: RemoteBatchKind,
    pub workspace_id: Option<String>,
    pub asset_ids: Vec<String>,
}

/// A review batch.
#[derive(Debug)]
pub struct RemoteBatch {
    pub schema_version: u32,
    pub batch_id: String,
    pub name: String,
    pub kind: RemoteBatchKind,
    pub source: RemoteJobSource,
    pub workspace_id: Option<String>,
    pub item_count: usize,
    pub created_at: u64,
    pub updated_at: u64,
    pub cover_asset: Option<RemoteAssetRef>,
    pub status_summary: Option<String>,
}

impl Clone for RemoteBatch {
    fn clone(&self) -> (r: Self)
        ensures
            r == *self,
    {
        RemoteBatch {
            schema_version: self.schema_version,
            batch_id: self.batch_id.clone(),
            name: self.name.clone(),
            kind: self.kind,
            source: self.source,
            workspace_id: clone_opt_string(&self.workspace_id),
            item_count: self.item_count,
            created_at: self.created_at,
            updated_at: self.updated_at,
            cover_asset: clone_opt_asset(&self.cover_asset),
            status_summary: clone_opt_string(&self.status_summary),
        }
    }
}

impl Keyed for RemoteBatch {
    open spec fn key(&self) -> Seq<char> {
        self.batch_id@
    }

    fn key_ref(&self) -> (r: &String) {
        &self.batch_id
    }
}

/// A review batch in the batch listing.
#[derive(Debug)]
pub struct RemoteReviewBatchSummary {
    pub batch_id: String,
    pub name: String,
    pub source: RemoteJobSource,
    pub item_count: usize,
    pub updated_at: u64,
    pub cover_asset: Option<RemoteAssetRef>,
}

impl Clone for RemoteReviewBatchSummary {
    fn clone(&self) -> (r: Self)
        ensures
            r == *self,
    {
        RemoteReviewBatchSummary {
            batch_id: self.batch_id.clone(),
            name: self.name.clone(),
            source: self.source,
            item_count: self.item_count,
            updated_at: self.updated_at,
            cover_asset: clone_opt_asset(&self.cover_asset),
        }
    }
}

impl Keyed for RemoteReviewBatchSummary {
    open spec fn key(&self) -> Seq<char> {
        self.batch_id@
    }

    fn key_ref(&self) -> (r: &String) {
        &self.batch_id
    }
}

/// One asset under review in a batch.
#[derive(Debug)]
pub struct RemoteReviewItem {
    pub schema_version: u32,
    pub item_id: String,
    pub batch_id: String,
    pub asset: RemoteAssetRef,
    pub status: RemoteReviewItemStatus,
    pub remark: String,
    pub tags: Vec<String>,
    pub thumb_asset: Option<RemoteAssetRef>,
    pub preview_asset: Option<RemoteAssetRef>,
    pub duration_ms: Option<u64>,
    pub width: Option<u32>,
    pub height: Option<u32>,
    pub updated_at: u64,
}

/// `b` holds the same values as `a`, the tag vectors compared by their contents.
pub open spec fn same_item(a: RemoteReviewItem, b: RemoteReviewItem) -> bool {
    &&& a.schema_version == b.schema_version
    &&& a.item_id == b.item_id
    &&& a.batch_id == b.batch_id
    &&& a.asset == b.asset
    &&& a.status == b.status
    &&& a.remark == b.remark
    &&& a.tags@ == b.tags@
    &&& a.thumb_asset == b.thumb_asset
    &&& a.preview_asset == b.preview_asset
    &&& a.duration_ms == b.duration_ms
    &&& a.width == b.width
    &&& a.height == b.height
    &&& a.updated_at == b.updated_at
}

impl RemoteReviewItem {
    pub fn clone_item(&self) -> (r: Self)
        ensures
            same_item(r, *self),
    {
        RemoteReviewItem {
            schema_version: self.schema_version,
            item_id: self.item_id.clone(),
            batch_id: self.batch_id.clone(),
            asset: self.asset.clone(),
            status: self.status,
            remark: self.remark.clone(),
            tags: clone_strings(&self.tags),
            thumb_asset: clone_opt_asset(&self.thumb_asset),
            preview_asset: clone_opt_asset(&self.preview_asset),
            duration_ms: self.duration_ms,
            width: self.width,
            height: self.height,
            updated_at: self.updated_at,
        }
    }
}

impl Keyed for RemoteReviewItem {
    open spec fn key(&self) -> Seq<char> {
        self.item_id@
    }

    fn key_ref(&self) -> (r: &String) {
        &self.item_id
    }
}

/// Changes to a review item; absent fields are left as they are.
#[derive(Debug)]
pub struct UpdateRemoteReviewItemRequest {
    pub status: Option<RemoteReviewItemStatus>,
    pub remark: Option<String>,
    pub tags: Option<Vec<String>>,
}

/// A note attached to a review item.
#[derive(Debug)]
pub struct RemoteAnnotation {
    pub schema_version: u32,
    pub annotation_id: String,
    pub item_id: String,
    pub text: String,
    pub author: Option<String>,
    pub time_ms: Option<u64>,
    pub created_at: u64,
}

impl Clone for RemoteAnnotation {
    fn clone(&self) -> (r: Self)
        ensures
            r == *self,
    {
        RemoteAnnotation {
            schema_version: self.schema_version,
            annotation_id: self.annotation_id.clone(),
            item_id: self.item_id.clone(),
            text: self.text.clone(),
            author: clone_opt_string(&self.author),
            time_ms: self.time_ms,
            created_at: self.created_at,
        }
    }
}

impl Keyed for RemoteAnnotation {
    open spec fn key(&self) -> Seq<char> {
        self.annotation_id@
    }

    fn key_ref(&self) -> (r: &String) {
        &self.annotation_id
    }
}

/// Summary of one data-extraction result.
#[derive(Debug)]
pub struct RemoteExtractResultSummary {
    pub result_id: String,
    pub module: String,
    pub batch_name: String,
    pub updated_at: u64,
    pub report_asset: Option<RemoteAssetRef>,
}

impl Clone for RemoteExtractResultSummary {
    fn clone(&self) -> (r: Self)
        ensures
            r == *self,
    {
        RemoteExtractResultSummary {
            result_id: self.result_id.clone(),
            module: self.module.clone(),
            batch_name: self.batch_name.clone(),
            updated_at: self.updated_at,
            report_asset: clone_opt_asset(&self.report_asset),
        }
    }
}

impl Keyed for RemoteExtractResultSummary {
    open spec fn key(&self) -> Seq<char> {
        self.result_id@
    }

    fn key_ref(&self) -> (r: &String) {
        &self.result_id
    }
}

} // verus!
