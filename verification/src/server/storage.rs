//! Metadata store held in memory: jobs with their requests and attempts,
//! results, event logs, idempotency keys, uploads, assets, dead letters,
//! review batches, review items, annotations and extraction results.
use vstd::prelude::*;

use crate::clock::now_unix;
use crate::keyed::{last_by_key, overlay_lookup, upsert_all, find_first_key, first_key_index, remove_key, find_key, has_key, key_index, lookup, lemma_lookup_at, lemma_filter_unique_keys, unique_keys, upsert, upserted, Keyed};
use crate::server::error::StoreError;
use crate::server::models::{
    clone_assets, clone_opt_string, DeadLetterRecord, RemoteAssetListItem, RemoteAssetRef,
    RemoteDownloadCredential, phase_event, RemoteJobEvent, RemotePage, RemotePageQuery, RemoteUploadCompleteRequest,
    RemoteUploadCompleteResponse, RemoteUploadInitRequest, RemoteUploadSession, REMOTE_SCHEMA_VERSION,
    RemoteJobPhase, RemoteJobRequest, CreateRemoteBatchRequest, RemoteAnnotation, RemoteBatch,
    RemoteBatchKind, RemoteExtractResultSummary, RemoteJobSource, RemoteReviewBatchSummary,
    RemoteReviewItem, RemoteReviewItemStatus, UpdateRemoteReviewItemRequest, clone_opt_asset, clone_strings,
    same_item,
    RemoteJobResult, RemoteJobStatus, RemoteJobSummary, summary_of,
};
use crate::sorting::{page_of, sort_by_key, sorted_by_key, take_page};
use crate::text::{
    chars_of, chars_of_string, decimal, lemma_decimal_injective, push_all, push_decimal, push_str, string_from_chars, string_of,
    strip_trailing, strip_trailing_vec, trim, trim_vec,
};

verus! {

/// A job as the store keeps it: its status, the request it was created from and
/// the number of attempts made so far.
#[derive(Debug)]
pub struct RemoteJobRecord {
    pub status: RemoteJobStatus,
    pub request: RemoteJobRequest,
    pub attempt: u32,
}

impl Keyed for RemoteJobRecord {
    open spec fn key(&self) -> Seq<char> {
        self.status.job_id@
    }

    fn key_ref(&self) -> (r: &String) {
        &self.status.job_id
    }
}

/// `b` holds the same values as `a`, vectors compared by their contents.
pub open spec fn same_request(a: RemoteJobRequest, b: RemoteJobRequest) -> bool {
    &&& a.source == b.source
    &&& a.workspace_id == b.workspace_id
    &&& a.client_request_id == b.client_request_id
    &&& a.inputs@ == b.inputs@
    &&& a.extras@ == b.extras@
}

/// `b` holds the same values as `a`, vectors compared by their contents.
pub open spec fn same_result(a: RemoteJobResult, b: RemoteJobResult) -> bool {
    &&& a.schema_version == b.schema_version
    &&& a.job_id == b.job_id
    &&& a.phase == b.phase
    &&& a.successes == b.successes
    &&& a.failures == b.failures
    &&& a.artifacts@ == b.artifacts@
    &&& a.error_summary == b.error_summary
    &&& a.updated_at == b.updated_at
}

/// The events recorded for one job, oldest first.
#[derive(Debug)]
pub struct EventLog {
    pub job_id: String,
    pub events: Vec<RemoteJobEvent>,
}

impl Keyed for EventLog {
    open spec fn key(&self) -> Seq<char> {
        self.job_id@
    }

    fn key_ref(&self) -> (r: &String) {
        &self.job_id
    }
}

/// A `(workspace, client request id)` pair and the job it created.
#[derive(Debug)]
pub struct IdempotencyEntry {
    pub workspace_id: String,
    pub client_request_id: String,
    pub job_id: String,
}

/// The events of `job` in the logs `logs`.
pub open spec fn events_of(logs: Seq<EventLog>, job: Seq<char>) -> Seq<RemoteJobEvent> {
    match lookup(logs, job) {
        Some(l) => l.events@,
        None => Seq::empty(),
    }
}

/// The job recorded for `(ws, crid)`, if any.
pub open spec fn idem_lookup(idem: Seq<IdempotencyEntry>, ws: Seq<char>, crid: Seq<char>) -> Option<Seq<char>> {
    if exists|i: int| 0 <= i < idem.len() && idem[i].workspace_id@ == ws && idem[i].client_request_id@ == crid {
        let i = choose|i: int| 0 <= i < idem.len() && idem[i].workspace_id@ == ws && idem[i].client_request_id@ == crid;
        Some(idem[i].job_id@)
    } else {
        None
    }
}

/// No two idempotency entries share a key.
pub open spec fn idem_unique(idem: Seq<IdempotencyEntry>) -> bool {
    forall|i: int, j: int| 0 <= i < idem.len() && 0 <= j < idem.len() && i != j ==>
        !(idem[i].workspace_id@ == idem[j].workspace_id@ && idem[i].client_request_id@ == idem[j].client_request_id@)
}

/// Identifier `"{prefix}-{n}"`.
pub open spec fn numbered_id(prefix: Seq<char>, n: nat) -> Seq<char> {
    prefix + "-"@ + decimal(n)
}

/// The workspace a request is filed under: its own or `"default"`.
pub open spec fn workspace_of(r: RemoteJobRequest) -> Seq<char> {
    match r.workspace_id {
        Some(w) => w@,
        None => "default"@,
    }
}

/// The total a new job starts with: its number of inputs, at least one.
pub open spec fn initial_total(r: RemoteJobRequest) -> nat {
    if r.inputs@.len() < 1 { 1 } else { r.inputs@.len() }
}

/// Internal state of an upload.
#[derive(Debug)]
pub struct UploadRecord {
    pub init: RemoteUploadInitRequest,
    pub object_key: String,
    pub bytes_received: Option<u64>,
    pub received_checksum: Option<String>,
    pub completed: bool,
}

impl Clone for UploadRecord {
    fn clone(&self) -> (r: Self)
        ensures
            r == *self,
    {
        UploadRecord {
            init: self.init.clone(),
            object_key: self.object_key.clone(),
            bytes_received: self.bytes_received,
            received_checksum: clone_opt_string(&self.received_checksum),
            completed: self.completed,
        }
    }
}

/// An upload under its identifier.
#[derive(Debug)]
pub struct UploadEntry {
    pub upload_id: String,
    pub record: UploadRecord,
}

impl Keyed for UploadEntry {
    open spec fn key(&self) -> Seq<char> {
        self.upload_id@
    }

    fn key_ref(&self) -> (r: &String) {
        &self.upload_id
    }
}

/// Default size of an upload part: 8 MiB.
pub const DEFAULT_PART_SIZE: u64 = 8 * 1024 * 1024;

/// Validity of an upload session URL, in seconds.
pub const UPLOAD_URL_TTL_SECS: u64 = 3600;

/// Validity of a download credential, in seconds.
pub const DOWNLOAD_TTL_SECS: u64 = 3600;

/// `base` without trailing slashes, followed by `tail`.
pub open spec fn url_join(base: Seq<char>, tail: Seq<char>) -> Seq<char> {
    strip_trailing(base, '/') + tail
}

/// Download URL of an asset: `{base}/v1/artifacts/{id}/content`.
pub open spec fn artifact_url(base: Seq<char>, asset_id: Seq<char>) -> Seq<char> {
    url_join(base, "/v1/artifacts/"@ + asset_id + "/content"@)
}

/// Builds `{base without trailing slashes}{a}{b}{c}`.
fn join_url3(base: &str, a: &str, b: &String, c: &str) -> (r: String)
    ensures
        r@ == url_join(base@, a@ + b@ + c@),
{
    let bv = chars_of(base);
    let mut out = strip_trailing_vec(&bv, '/');
    push_str(&mut out, a);
    let bb = chars_of_string(b);
    push_all(&mut out, &bb);
    push_str(&mut out, c);
    let r = string_from_chars(&out);
    assert(r@ =~= url_join(base@, a@ + b@ + c@));
    r
}

/// The checksums agree unless both are given and differ.
pub open spec fn checksums_agree(expected: Option<String>, actual: Option<String>) -> bool {
    match (expected, actual) {
        (Some(e), Some(a)) => e@ == a@,
        _ => true,
    }
}

fn checksums_agree_exec(expected: &Option<String>, actual: &Option<String>) -> (r: bool)
    ensures
        r == checksums_agree(*expected, *actual),
{
    match (expected, actual) {
        (Some(e), Some(a)) => *e == *a,
        _ => true,
    }
}

/// The checksum a completed upload carries: the request's, else the received
/// one, else the announced one.
pub open spec fn completion_checksum(requested: Option<String>, rec: UploadRecord) -> Option<String> {
    match requested {
        Some(c) => Some(c),
        None => match rec.received_checksum {
            Some(c) => Some(c),
            None => rec.init.checksum,
        },
    }
}

/// An asset as it appears in the asset listing at time `now`.
pub open spec fn listed(a: RemoteAssetRef, now: u64) -> RemoteAssetListItem {
    RemoteAssetListItem { asset: a, created_at: Some(now), tags: None }
}

/// Identifier of the `j`-th item of a batch created when the counter stood at `n0`.
pub open spec fn batch_item_id(n0: nat, j: int) -> Seq<char> {
    numbered_id("item"@, (n0 + 2 + j) as nat)
}

/// A batch marked as updated at `now`, taking `cover` when it has no cover yet.
pub open spec fn touched_batch(b: RemoteBatch, now: u64, cover: Option<RemoteAssetRef>) -> RemoteBatch {
    RemoteBatch {
        updated_at: now,
        cover_asset: if b.cover_asset is None { cover } else { b.cover_asset },
        ..b
    }
}

/// The batch listing with the first entry of `batch_id` marked as updated at `now`
/// and taking `cover` when it has no cover yet.
pub open spec fn touched_summaries(s: Seq<RemoteReviewBatchSummary>, batch_id: Seq<char>, now: u64, cover: Option<RemoteAssetRef>) -> Seq<RemoteReviewBatchSummary> {
    if has_key(s, batch_id) {
        let i = first_key_index(s, batch_id);
        s.update(i, RemoteReviewBatchSummary {
            updated_at: now,
            cover_asset: if s[i].cover_asset is None { cover } else { s[i].cover_asset },
            ..s[i]
        })
    } else {
        s
    }
}

/// The asset a batch without cover takes from an item: its thumbnail, else its
/// preview, else the item's asset.
pub open spec fn cover_candidate(it: RemoteReviewItem) -> RemoteAssetRef {
    match it.thumb_asset {
        Some(a) => a,
        None => match it.preview_asset {
            Some(a) => a,
            None => it.asset,
        },
    }
}


/// The job source that reviews a batch of the given kind.
pub open spec fn source_of_kind(k: RemoteBatchKind) -> RemoteJobSource {
    match k {
        RemoteBatchKind::Image => RemoteJobSource::Review,
        RemoteBatchKind::Video => RemoteJobSource::VideoReview,
    }
}

/// The listing entry of a batch.
pub open spec fn batch_summary(b: RemoteBatch) -> RemoteReviewBatchSummary {
    RemoteReviewBatchSummary {
        batch_id: b.batch_id,
        name: b.name,
        source: b.source,
        item_count: b.item_count,
        updated_at: b.updated_at,
        cover_asset: b.cover_asset,
    }
}

/// Update times descend (ties allowed) along `s`.
pub open spec fn sorted_desc_updated(s: Seq<RemoteJobSummary>) -> bool {
    forall|i: int, j: int| 0 <= i < j < s.len() ==> #[trigger] s[i].updated_at >= #[trigger] s[j].updated_at
}

/// The events of `s` stamped strictly after `after`, or all of them.
pub open spec fn events_after(s: Seq<RemoteJobEvent>, after: Option<u64>) -> Seq<RemoteJobEvent>
    decreases s.len(),
{
    if s.len() == 0 {
        s
    } else {
        let rest = events_after(s.drop_last(), after);
        let keep = match after {
            Some(ts) => s.last().ts > ts,
            None => true,
        };
        if keep { rest.push(s.last()) } else { rest }
    }
}

/// Uploads, assets, dead letters, batches, items, annotations and extraction
/// results are the same in both stores.
pub open spec fn same_catalog(a: InMemoryJobStore, b: InMemoryJobStore) -> bool {
    &&& a.uploads_view() == b.uploads_view()
    &&& a.assets_view() == b.assets_view()
    &&& a.dead_letters_view() == b.dead_letters_view()
    &&& a.review_batches_view() == b.review_batches_view()
    &&& a.batches_view() == b.batches_view()
    &&& a.items_view() == b.items_view()
    &&& a.annotations_view() == b.annotations_view()
    &&& a.extract_results_view() == b.extract_results_view()
}

/// What creating a job for `request` at `now` does to store `old`, giving store
/// `new` and result `r`.
pub open spec fn create_job_post(old: InMemoryJobStore, request: RemoteJobRequest, now: u64, new: InMemoryJobStore, r: Result<RemoteJobStatus, StoreError>) -> bool {
    match request.client_request_id {
        Some(crid) if idem_lookup(old.idem_view(), workspace_of(request), crid@) is Some => {
            let existing = idem_lookup(old.idem_view(), workspace_of(request), crid@).unwrap();
            &&& new == old
            &&& match old.job(existing) {
                Some(rec) => r == Ok::<RemoteJobStatus, StoreError>(rec.status),
                None => r is Err && r->Err_0 is Internal,
            }
        },
        _ => {
            let n = (old.next_id_view() + 1) as nat;
            let id = numbered_id("job"@, n);
            &&& new.next_id_view() == n
            &&& r matches Ok(st)
            &&& st.job_id@ == id
                &&& st.source == request.source
            &&& st.phase == RemoteJobPhase::Queued
            &&& st.processed == 0
            &&& st.total == initial_total(request)
            &&& st.log_summary is None && st.error_summary is None
            &&& st.created_at == now && st.updated_at == now
            &&& new.job(id) matches Some(rec)
            &&& rec.status == st
            &&& rec.request == request
            &&& rec.attempt == 0
            &&& forall|k: Seq<char>| k != id ==> #[trigger] new.job(k) == old.job(k)
            &&& events_of(new.events_view(), id) == events_of(old.events_view(), id).push(
                phase_event(st.job_id, request.source, RemoteJobPhase::Queued, now))
            &&& forall|k: Seq<char>| k != id ==> #[trigger] events_of(new.events_view(), k)
                == events_of(old.events_view(), k)
            &&& new.results_view() == old.results_view()
            &&& same_catalog(old, new)
            &&& match request.client_request_id {
                Some(crid) => idem_lookup(new.idem_view(), workspace_of(request), crid@) == Some(id)
                    && new.idem_view().drop_last() == old.idem_view(),
                None => new.idem_view() == old.idem_view(),
            }
        },
    }
}

/// Rows of a persisted store, as read back at start.
#[derive(Debug)]
pub struct StoreSnapshot {
    pub jobs: Vec<RemoteJobRecord>,
    pub results: Vec<RemoteJobResult>,
    pub events: Vec<RemoteJobEvent>,
    pub uploads: Vec<UploadEntry>,
    pub assets: Vec<RemoteAssetRef>,
    /// `(workspace, client request id, job id)`.
    pub idempotency: Vec<(String, String, String)>,
    pub batches: Vec<RemoteBatch>,
    pub review_items: Vec<RemoteReviewItem>,
    pub annotations: Vec<RemoteAnnotation>,
    pub extract_results: Vec<RemoteExtractResultSummary>,
}

/// `x` belongs to batch `batch_id` and is, field for field, the store's item with its id.
pub open spec fn batch_entry(store: InMemoryJobStore, x: RemoteReviewItem, batch_id: Seq<char>) -> bool {
    x.batch_id@ == batch_id && (store.item(x.item_id@) matches Some(it) && same_item(x, it))
}

/// Every item of batch `batch_id` in the store has its id among `v`.
pub open spec fn lists_whole_batch(store: InMemoryJobStore, v: Seq<RemoteReviewItem>, batch_id: Seq<char>) -> bool {
    forall|key: Seq<char>| #[trigger] store.item(key) matches Some(it) && it.batch_id@ == batch_id
        ==> exists|j: int| 0 <= j < v.len() && #[trigger] v[j].item_id@ == key
}

/// What making a batch from `request` at `now` does: when every asset is registered, a
/// new batch with one pending item per asset; otherwise `NotFound` for the first missing
/// asset, with the batches unchanged.
pub open spec fn create_batch_post(old: InMemoryJobStore, request: CreateRemoteBatchRequest, now: u64, new: InMemoryJobStore, r: Result<RemoteBatch, StoreError>) -> bool {
    &&& (new.jobs_view() == old.jobs_view())
    &&& (new.assets_view() == old.assets_view())
    &&& (new.uploads_view() == old.uploads_view())
    &&& ((forall|j: int| 0 <= j < request.asset_ids@.len() ==> #[trigger] old.asset(request.asset_ids@[j]@) is Some)
                ==> {
                let n0 = old.next_id_view() as nat;
                let len = request.asset_ids@.len();
                let bid = numbered_id("batch"@, n0 + 1);
                &&& r matches Ok(b)
                &&& b.schema_version == REMOTE_SCHEMA_VERSION
                &&& b.batch_id@ == bid
                &&& b.name == request.name
                &&& b.kind == request.kind
                &&& b.source == source_of_kind(request.kind)
                &&& b.workspace_id == request.workspace_id
                &&& b.item_count == len
                &&& b.created_at == now && b.updated_at == now
                &&& b.cover_asset == (if len > 0 { old.asset(request.asset_ids@[0]@) } else { None })
                &&& b.status_summary matches Some(st) && st@ == "pending"@
                &&& new.next_id_view() == n0 + 1 + len
                &&& new.batch(bid) == Some(b)
                &&& forall|k: Seq<char>| k != bid ==> #[trigger] new.batch(k) == old.batch(k)
                &&& new.review_batches_view() == old.review_batches_view().push(batch_summary(b))
                &&& forall|j: int| 0 <= j < len ==> {
                    let it = #[trigger] new.item(batch_item_id(n0, j));
                    &&& it matches Some(item)
                    &&& item.item_id@ == batch_item_id(n0, j)
                    &&& item.batch_id@ == bid
                    &&& Some(item.asset) == old.asset(request.asset_ids@[j]@)
                    &&& item.status == RemoteReviewItemStatus::Pending
                    &&& item.remark@.len() == 0
                    &&& item.tags@.len() == 0
                    &&& item.thumb_asset is None && item.preview_asset is None
                    &&& item.duration_ms is None && item.width is None && item.height is None
                    &&& item.updated_at == now
                    &&& item.schema_version == REMOTE_SCHEMA_VERSION
                }
                &&& forall|k: Seq<char>| (forall|j: int| 0 <= j < len ==> k != #[trigger] batch_item_id(n0, j))
                    ==> #[trigger] new.item(k) == old.item(k)
            })
    &&& (!(forall|j: int| 0 <= j < request.asset_ids@.len() ==> #[trigger] old.asset(request.asset_ids@[j]@) is Some)
                ==> {
                let j = choose|j: int| 0 <= j < request.asset_ids@.len() && old.asset(request.asset_ids@[j]@) is None
                    && forall|i: int| 0 <= i < j ==> #[trigger] old.asset(request.asset_ids@[i]@) is Some;
                &&& r matches Err(StoreError::NotFound(m))
                &&& m@ == "asset "@ + request.asset_ids@[j]@
                &&& new.batches_view() == old.batches_view()
                &&& new.review_batches_view() == old.review_batches_view()
            })
}

/// `items` is the page that `query` selects of the store's assets listed at `now`, sorted
/// by id.
pub open spec fn asset_listing(store: InMemoryJobStore, query: RemotePageQuery, now: u64, items: Seq<RemoteAssetListItem>) -> bool {
    exists|all: Seq<RemoteAssetListItem>| {
        &&& sorted_by_key(all)
        &&& all.to_multiset() == store.assets_view().map_values(|a: RemoteAssetRef| listed(a, now)).to_multiset()
        &&& items == page_of(all, query.offset as nat, query.limit as nat)
    }
}

/// In-memory metadata store.
pub struct InMemoryJobStore {
    jobs: Vec<RemoteJobRecord>,
    results: Vec<RemoteJobResult>,
    events: Vec<EventLog>,
    idempotency: Vec<IdempotencyEntry>,
    uploads: Vec<UploadEntry>,
    assets: Vec<RemoteAssetRef>,
    dead_letters: Vec<DeadLetterRecord>,
    review_batches: Vec<RemoteReviewBatchSummary>,
    batches: Vec<RemoteBatch>,
    review_items: Vec<RemoteReviewItem>,
    annotations: Vec<RemoteAnnotation>,
    extract_results: Vec<RemoteExtractResultSummary>,
    next_id: u64,
}

impl InMemoryJobStore {
    pub closed spec fn jobs_view(&self) -> Seq<RemoteJobRecord> {
        self.jobs@
    }

    pub closed spec fn results_view(&self) -> Seq<RemoteJobResult> {
        self.results@
    }

    pub closed spec fn events_view(&self) -> Seq<EventLog> {
        self.events@
    }

    pub closed spec fn idem_view(&self) -> Seq<IdempotencyEntry> {
        self.idempotency@
    }

    pub closed spec fn uploads_view(&self) -> Seq<UploadEntry> {
        self.uploads@
    }

    pub closed spec fn assets_view(&self) -> Seq<RemoteAssetRef> {
        self.assets@
    }

    pub closed spec fn dead_letters_view(&self) -> Seq<DeadLetterRecord> {
        self.dead_letters@
    }

    pub closed spec fn review_batches_view(&self) -> Seq<RemoteReviewBatchSummary> {
        self.review_batches@
    }

    pub closed spec fn batches_view(&self) -> Seq<RemoteBatch> {
        self.batches@
    }

    pub closed spec fn items_view(&self) -> Seq<RemoteReviewItem> {
        self.review_items@
    }

    pub closed spec fn annotations_view(&self) -> Seq<RemoteAnnotation> {
        self.annotations@
    }

    pub closed spec fn extract_results_view(&self) -> Seq<RemoteExtractResultSummary> {
        self.extract_results@
    }

    /// Counter from which the next generated identifier is numbered.
    pub closed spec fn next_id_view(&self) -> u64 {
        self.next_id
    }

    /// Well-formedness: every keyed collection has unique keys.
    pub open spec fn wf(&self) -> bool {
        &&& unique_keys(self.jobs_view())
        &&& unique_keys(self.results_view())
        &&& unique_keys(self.events_view())
        &&& idem_unique(self.idem_view())
        &&& unique_keys(self.uploads_view())
        &&& unique_keys(self.assets_view())
        &&& unique_keys(self.batches_view())
        &&& unique_keys(self.items_view())
        &&& unique_keys(self.annotations_view())
        &&& unique_keys(self.extract_results_view())
    }

    /// The job with id `id`, if any.
    pub open spec fn job(&self, id: Seq<char>) -> Option<RemoteJobRecord> {
        lookup(self.jobs_view(), id)
    }

    /// The counter from which the next generated identifier is numbered.
    pub fn id_counter(&self) -> (r: u64)
        ensures
            r == self.next_id_view(),
    {
        self.next_id
    }

    /// An empty store.
    pub fn new() -> (s: Self)
        ensures
            s.wf(),
            s.jobs_view().len() == 0,
            s.results_view().len() == 0,
            s.events_view().len() == 0,
            s.idem_view().len() == 0,
            s.uploads_view().len() == 0,
            s.assets_view().len() == 0,
            s.dead_letters_view().len() == 0,
            s.review_batches_view().len() == 0,
            s.batches_view().len() == 0,
            s.items_view().len() == 0,
            s.annotations_view().len() == 0,
            s.extract_results_view().len() == 0,
            s.next_id_view() == 0,
    {
        InMemoryJobStore {
            jobs: Vec::new(),
            results: Vec::new(),
            events: Vec::new(),
            idempotency: Vec::new(),
            uploads: Vec::new(),
            assets: Vec::new(),
            dead_letters: Vec::new(),
            review_batches: Vec::new(),
            batches: Vec::new(),
            review_items: Vec::new(),
            annotations: Vec::new(),
            extract_results: Vec::new(),
            next_id: 0,
        }
    }

    fn find_idem(&self, ws: &String, crid: &String) -> (r: Option<usize>)
        requires
            idem_unique(self.idempotency@),
        ensures
            match r {
                Some(i) => i < self.idempotency@.len() && idem_lookup(self.idempotency@, ws@, crid@)
                    == Some(self.idempotency@[i as int].job_id@)
                    && self.idempotency@[i as int].workspace_id@ == ws@
                    && self.idempotency@[i as int].client_request_id@ == crid@,
                None => idem_lookup(self.idempotency@, ws@, crid@) is None,
            },
    {
        let mut i: usize = 0;
        while i < self.idempotency.len()
            invariant
                i <= self.idempotency@.len(),
                idem_unique(self.idempotency@),
                forall|j: int| 0 <= j < i ==> !(self.idempotency@[j].workspace_id@ == ws@
                    && self.idempotency@[j].client_request_id@ == crid@),
            decreases self.idempotency@.len() - i,
        {
            if self.idempotency[i].workspace_id == *ws && self.idempotency[i].client_request_id == *crid {
                proof {
                    let c = choose|c: int| 0 <= c < self.idempotency@.len()
                        && self.idempotency@[c].workspace_id@ == ws@
                        && self.idempotency@[c].client_request_id@ == crid@;
                    assert(c == i);
                }
                return Some(i);
            }
            i += 1;
        }
        None
    }

    /// Appends `event` to the log of `job_id`, creating the log when needed.
    fn push_event(&mut self, job_id: &String, event: RemoteJobEvent)
        requires
            unique_keys(old(self).events@),
        ensures
            unique_keys(final(self).events@),
            events_of(final(self).events@, job_id@) == events_of(old(self).events@, job_id@).push(event),
            forall|k: Seq<char>| k != job_id@ ==> #[trigger] events_of(final(self).events@, k)
                == events_of(old(self).events@, k),
            final(self).jobs == old(self).jobs,
            final(self).results == old(self).results,
            final(self).idempotency == old(self).idempotency,
            final(self).uploads == old(self).uploads,
            final(self).assets == old(self).assets,
            final(self).dead_letters == old(self).dead_letters,
            final(self).review_batches == old(self).review_batches,
            final(self).batches == old(self).batches,
            final(self).review_items == old(self).review_items,
            final(self).annotations == old(self).annotations,
            final(self).extract_results == old(self).extract_results,
            final(self).next_id == old(self).next_id,
    {
        let ghost o = self.events@;
        match find_key(&self.events, job_id) {
            Some(i) => {
                let mut log = self.events.remove(i);
                log.events.push(event);
                self.events.insert(i, log);
                proof {
                    let n = self.events@;
                    assert forall|a: int| 0 <= a < n.len() && a != i implies #[trigger] n[a] == o[a] by {}
                    assert forall|a: int, b: int| 0 <= a < n.len() && 0 <= b < n.len() && a != b implies #[trigger] n[a].key()
                        != #[trigger] n[b].key() by {
                        assert(n[a].key() == o[a].key());
                        assert(n[b].key() == o[b].key());
                    }
                    lemma_lookup_at(n, i as int);
                    assert forall|k: Seq<char>| k != job_id@ implies #[trigger] events_of(n, k) == events_of(o, k) by {
                        if has_key(o, k) {
                            let j = key_index(o, k);
                            assert(j != i);
                            lemma_lookup_at(n, j);
                        }
                        if has_key(n, k) {
                            let j = key_index(n, k);
                            assert(j != i);
                            lemma_lookup_at(o, j);
                        }
                    }
                }
            },
            None => {
                let mut evs: Vec<RemoteJobEvent> = Vec::new();
                evs.push(event);
                let log = EventLog { job_id: job_id.clone(), events: evs };
                let _ = upsert(&mut self.events, log);
                proof {
                    assert(evs@ =~= Seq::<RemoteJobEvent>::empty().push(event));
                }
            },
        }
    }

    /// Creates a job for `request` at time `now`, or returns the existing job when the
    /// request carries a client request id already seen in the same workspace.
    pub fn create_job_at(&mut self, request: RemoteJobRequest, now: u64) -> (r: Result<RemoteJobStatus, StoreError>)
        requires
            old(self).wf(),
            old(self).next_id_view() < u64::MAX,
        ensures
            final(self).wf(),
            create_job_post(*old(self), request, now, *final(self), r),
    {
        let ws: String = match &request.workspace_id {
            Some(w) => w.clone(),
            None => string_of("default"),
        };
        assert(ws@ == workspace_of(request));
        if let Some(crid) = &request.client_request_id {
            if let Some(i) = self.find_idem(&ws, crid) {
                let existing = self.idempotency[i].job_id.clone();
                return match find_key(&self.jobs, &existing) {
                    Some(j) => Ok(self.jobs[j].status.clone()),
                    None => Err(StoreError::Internal(string_of("idempotent job missing"))),
                };
            }
        }
        self.next_id = self.next_id + 1;
        let mut idv: Vec<char> = Vec::new();
        push_str(&mut idv, "job-");
        push_decimal(&mut idv, self.next_id);
        let job_id = string_from_chars(&idv);
        proof {
            reveal_strlit("job-");
            reveal_strlit("job");
            reveal_strlit("-");
            assert(job_id@ =~= numbered_id("job"@, self.next_id as nat));
        }
        let mut status = RemoteJobStatus::new(job_id.clone(), request.source, RemoteJobPhase::Queued, now);
        status.total = if request.inputs.len() < 1 { 1 } else { request.inputs.len() };
        let event = RemoteJobEvent::phase_change(&job_id, request.source, RemoteJobPhase::Queued, now);
        self.push_event(&job_id, event);
        let ghost old_idem = self.idempotency@;
        if let Some(crid) = &request.client_request_id {
            self.idempotency.push(IdempotencyEntry {
                workspace_id: ws,
                client_request_id: crid.clone(),
                job_id: job_id.clone(),
            });
            proof {
                let n = self.idempotency@;
                let last = n.len() - 1;
                assert(n.drop_last() =~= old_idem);
                assert forall|a: int, b: int| 0 <= a < n.len() && 0 <= b < n.len() && a != b implies
                    !(n[a].workspace_id@ == n[b].workspace_id@ && n[a].client_request_id@ == n[b].client_request_id@) by {
                    if a != last && b != last {
                        assert(n[a] == old_idem[a] && n[b] == old_idem[b]);
                    } else if a == last {
                        assert(n[b] == old_idem[b]);
                    } else {
                        assert(n[a] == old_idem[a]);
                    }
                }
                assert(n[last].workspace_id@ == ws@ && n[last].client_request_id@ == crid@);
                let c = choose|c: int| 0 <= c < n.len() && n[c].workspace_id@ == ws@ && n[c].client_request_id@ == crid@;
                assert(c == last);
            }
        }
        let rec = RemoteJobRecord { status: status.clone(), request, attempt: 0 };
        let _ = upsert(&mut self.jobs, rec);
        Ok(status)
    }

    /// Creates a job, stamped with the current time.
    pub fn create_job(&mut self, request: RemoteJobRequest) -> (r: Result<RemoteJobStatus, StoreError>)
        requires
            old(self).wf(),
            old(self).next_id_view() < u64::MAX,
        ensures
            final(self).wf(),
            exists|now: u64| #[trigger] create_job_post(*old(self), request, now, *final(self), r),
    {
        let now = now_unix();
        let r = self.create_job_at(request, now);
        assert(create_job_post(*old(self), request, now, *self, r));
        r
    }

    /// The status of job `job_id`; `NotFound` carrying the id when there is none.
    pub fn get_job(&self, job_id: &str) -> (r: Result<RemoteJobStatus, StoreError>)
        requires
            self.wf(),
        ensures
            match self.job(job_id@) {
                Some(rec) => r == Ok::<RemoteJobStatus, StoreError>(rec.status),
                None => r matches Err(StoreError::NotFound(m)) && m@ == job_id@,
            },
    {
        let id = string_of(job_id);
        match find_key(&self.jobs, &id) {
            Some(i) => Ok(self.jobs[i].status.clone()),
            None => Err(StoreError::NotFound(id)),
        }
    }

    /// Status, request and attempt count of job `job_id`; `NotFound` when there is none.
    pub fn get_job_record(&self, job_id: &str) -> (r: Result<RemoteJobRecord, StoreError>)
        requires
            self.wf(),
        ensures
            match self.job(job_id@) {
                Some(rec) => r matches Ok(out) && out.status == rec.status && out.attempt == rec.attempt
                    && same_request(out.request, rec.request),
                None => r matches Err(StoreError::NotFound(m)) && m@ == job_id@,
            },
    {
        let id = string_of(job_id);
        match find_key(&self.jobs, &id) {
            Some(i) => Ok(RemoteJobRecord {
                status: self.jobs[i].status.clone(),
                request: self.jobs[i].request.clone(),
                attempt: self.jobs[i].attempt,
            }),
            None => Err(StoreError::NotFound(id)),
        }
    }

    /// Summaries of the jobs, most recently updated first, at most `max(limit, 1)` of them.
    pub fn list_jobs(&self, limit: usize) -> (r: Result<Vec<RemoteJobSummary>, StoreError>)
        requires
            self.wf(),
        ensures
            r matches Ok(v) && exists|all: Seq<RemoteJobSummary>| {
                &&& sorted_desc_updated(all)
                &&& all.to_multiset() == self.jobs_view().map_values(|j: RemoteJobRecord| summary_of(j.status)).to_multiset()
                &&& v@ == page_of(all, 0, limit as nat)
            },
    {
        let mut all: Vec<RemoteJobSummary> = Vec::new();
        let mut i: usize = 0;
        let ghost src = self.jobs@.map_values(|j: RemoteJobRecord| summary_of(j.status));
        assert(all@ =~= src.subrange(0, 0));
        while i < self.jobs.len()
            invariant
                i <= self.jobs@.len(),
                src == self.jobs@.map_values(|j: RemoteJobRecord| summary_of(j.status)),
                sorted_desc_updated(all@),
                all@.to_multiset() == src.subrange(0, i as int).to_multiset(),
            decreases self.jobs@.len() - i,
        {
            let x = RemoteJobSummary::from_status(&self.jobs[i].status);
            let mut p: usize = 0;
            while p < all.len() && all[p].updated_at >= x.updated_at
                invariant
                    p <= all@.len(),
                    forall|k: int| 0 <= k < p ==> #[trigger] all@[k].updated_at >= x.updated_at,
                decreases all@.len() - p,
            {
                p += 1;
            }
            let ghost before = all@;
            all.insert(p, x);
            proof {
                assert forall|a: int, b: int| 0 <= a < b < all@.len() implies #[trigger] all@[a].updated_at >= #[trigger] all@[b].updated_at by {
                    if b < p {
                        assert(all@[a] == before[a] && all@[b] == before[b]);
                    } else if b == p {
                        assert(all@[a] == before[a]);
                    } else if a < p {
                        assert(all@[a] == before[a] && all@[b] == before[b - 1]);
                    } else if a == p {
                        assert(all@[b] == before[b - 1]);
                        assert(before[p as int].updated_at < x.updated_at);
                    } else {
                        assert(all@[a] == before[a - 1] && all@[b] == before[b - 1]);
                    }
                }
                assert(src[i as int] == x);
                vstd::seq_lib::to_multiset_insert(before, p as int, x);
                assert(all@ == before.insert(p as int, x));
                assert(src.subrange(0, i + 1) =~= src.subrange(0, i as int).push(src[i as int]));
                vstd::seq_lib::to_multiset_build(src.subrange(0, i as int), src[i as int]);
            }
            i += 1;
        }
        proof {
            assert(src.subrange(0, i as int) =~= src);
        }
        let ghost all_v = all@;
        let page = take_page(all, 0, limit);
        Ok(page)
    }

    /// Replaces the status of an existing job and appends a phase-change event
    /// stamped with the status's own update time; `NotFound` when the job is unknown.
    pub fn update_job(&mut self, status: RemoteJobStatus) -> (r: Result<(), StoreError>)
        requires
            old(self).wf(),
        ensures
            final(self).wf(),
            old(self).job(status.job_id@) is None ==> (r matches Err(StoreError::NotFound(m))
                && m == status.job_id && *final(self) == *old(self)),
            old(self).job(status.job_id@) matches Some(rec) ==> {
                &&& r is Ok
                &&& final(self).job(status.job_id@) == Some(RemoteJobRecord { status, ..rec })
                &&& forall|k: Seq<char>| k != status.job_id@ ==> #[trigger] final(self).job(k) == old(self).job(k)
                &&& events_of(final(self).events_view(), status.job_id@) == events_of(old(self).events_view(), status.job_id@).push(
                    phase_event(status.job_id, status.source, status.phase, status.updated_at))
                &&& forall|k: Seq<char>| k != status.job_id@ ==> #[trigger] events_of(final(self).events_view(), k)
                    == events_of(old(self).events_view(), k)
                &&& final(self).results_view() == old(self).results_view()
                &&& final(self).idem_view() == old(self).idem_view()
                &&& final(self).next_id_view() == old(self).next_id_view()
                &&& final(self).dead_letters_view() == old(self).dead_letters_view()
            },
    {
        match find_key(&self.jobs, &status.job_id) {
            None => Err(StoreError::NotFound(status.job_id)),
            Some(i) => {
                let event = RemoteJobEvent::phase_change(&status.job_id, status.source, status.phase, status.updated_at);
                let id = status.job_id.clone();
                self.push_event(&id, event);
                let old_rec = self.jobs.remove(i);
                let rec = RemoteJobRecord { status, request: old_rec.request, attempt: old_rec.attempt };
                self.jobs.insert(i, rec);
                proof {
                    let o = old(self).jobs@;
                    let n = self.jobs@;
                    assert forall|a: int| 0 <= a < n.len() && a != i implies #[trigger] n[a] == o[a] by {}
                    assert forall|a: int, b: int| 0 <= a < n.len() && 0 <= b < n.len() && a != b implies #[trigger] n[a].key()
                        != #[trigger] n[b].key() by {
                        assert(n[a].key() == o[a].key());
                        assert(n[b].key() == o[b].key());
                    }
                    lemma_lookup_at(n, i as int);
                    assert forall|k: Seq<char>| k != id@ implies #[trigger] lookup(n, k) == lookup(o, k) by {
                        if has_key(o, k) {
                            let j = key_index(o, k);
                            assert(j != i);
                            lemma_lookup_at(n, j);
                        }
                        if has_key(n, k) {
                            let j = key_index(n, k);
                            assert(j != i);
                            lemma_lookup_at(o, j);
                        }
                    }
                }
                Ok(())
            },
        }
    }

    /// Records the result of a job, replacing an earlier one.
    pub fn set_result(&mut self, result: RemoteJobResult) -> (r: Result<(), StoreError>)
        requires
            old(self).wf(),
        ensures
            final(self).wf(),
            r is Ok,
            upserted(old(self).results_view(), final(self).results_view(), result),
            final(self).jobs_view() == old(self).jobs_view(),
            final(self).dead_letters_view() == old(self).dead_letters_view(),
            final(self).events_view() == old(self).events_view(),
            final(self).idem_view() == old(self).idem_view(),
            final(self).next_id_view() == old(self).next_id_view(),
    {
        let _ = upsert(&mut self.results, result);
        Ok(())
    }

    /// The result of job `job_id`; `NotFound` carrying the id when none was recorded.
    pub fn get_result(&self, job_id: &str) -> (r: Result<RemoteJobResult, StoreError>)
        requires
            self.wf(),
        ensures
            match lookup(self.results_view(), job_id@) {
                Some(res) => r matches Ok(out) && same_result(out, res),
                None => r matches Err(StoreError::NotFound(m)) && m@ == job_id@,
            },
    {
        let id = string_of(job_id);
        match find_key(&self.results, &id) {
            Some(i) => Ok(self.results[i].clone_result()),
            None => Err(StoreError::NotFound(id)),
        }
    }

    /// Appends an event to the log of its job.
    pub fn append_event(&mut self, event: RemoteJobEvent) -> (r: Result<(), StoreError>)
        requires
            old(self).wf(),
        ensures
            final(self).wf(),
            r is Ok,
            events_of(final(self).events_view(), event.job_id@) == events_of(old(self).events_view(), event.job_id@).push(event),
            forall|k: Seq<char>| k != event.job_id@ ==> #[trigger] events_of(final(self).events_view(), k)
                == events_of(old(self).events_view(), k),
            final(self).jobs_view() == old(self).jobs_view(),
            final(self).results_view() == old(self).results_view(),
    {
        let id = event.job_id.clone();
        self.push_event(&id, event);
        Ok(())
    }

    /// The events of job `job_id` in recording order, keeping only those stamped
    /// strictly after `after_ts` when it is given.
    pub fn list_events(&self, job_id: &str, after_ts: Option<u64>) -> (r: Result<Vec<RemoteJobEvent>, StoreError>)
        requires
            self.wf(),
        ensures
            r matches Ok(v) && v@ == events_after(events_of(self.events_view(), job_id@), after_ts),
    {
        let id = string_of(job_id);
        let mut out: Vec<RemoteJobEvent> = Vec::new();
        match find_key(&self.events, &id) {
            None => {
                assert(events_after(Seq::<RemoteJobEvent>::empty(), after_ts) =~= Seq::<RemoteJobEvent>::empty());
            },
            Some(i) => {
                let evs = &self.events[i].events;
                let ghost es = evs@;
                let mut k: usize = 0;
                while k < evs.len()
                    invariant
                        k <= es.len(),
                        es == evs@,
                        out@ == events_after(es.subrange(0, k as int), after_ts),
                    decreases es.len() - k,
                {
                    let keep = match after_ts {
                        Some(ts) => evs[k].ts > ts,
                        None => true,
                    };
                    proof {
                        assert(es.subrange(0, k + 1).drop_last() =~= es.subrange(0, k as int));
                    }
                    if keep {
                        out.push(evs[k].clone());
                    }
                    k += 1;
                }
                proof {
                    assert(es.subrange(0, k as int) =~= es);
                }
            },
        }
        Ok(out)
    }

    /// Puts a job back as it was persisted elsewhere: status, request and attempt count.
    pub fn import_job(&mut self, status: RemoteJobStatus, request: RemoteJobRequest, attempt: u32) -> (r: Result<(), StoreError>)
        requires
            old(self).wf(),
        ensures
            final(self).wf(),
            r is Ok,
            upserted(old(self).jobs_view(), final(self).jobs_view(), RemoteJobRecord { status, request, attempt }),
            final(self).results_view() == old(self).results_view(),
            final(self).events_view() == old(self).events_view(),
            final(self).idem_view() == old(self).idem_view(),
            final(self).next_id_view() == old(self).next_id_view(),
    {
        let _ = upsert(&mut self.jobs, RemoteJobRecord { status, request, attempt });
        Ok(())
    }

    /// The upload with id `id`, if any.
    pub open spec fn upload(&self, id: Seq<char>) -> Option<UploadRecord> {
        match lookup(self.uploads_view(), id) {
            Some(e) => Some(e.record),
            None => None,
        }
    }

    /// The asset with id `id`, if any.
    pub open spec fn asset(&self, id: Seq<char>) -> Option<RemoteAssetRef> {
        lookup(self.assets_view(), id)
    }

    /// Opens an upload session for `request`; `Validation` when the file name is
    /// blank. The session's id is `"upl-{n}"` for the next counter value `n`, its
    /// bytes go to `{public_base}/v1/uploads/{id}/bytes` in one part of the announced
    /// size (default 8 MiB, at least one byte), and the URL is valid for an hour.
    pub fn init_upload(&mut self, request: RemoteUploadInitRequest, public_base: &str) -> (r: Result<RemoteUploadSession, StoreError>)
        requires
            old(self).wf(),
            old(self).next_id_view() < u64::MAX,
        ensures
            final(self).wf(),
            trim(request.file_name@).len() == 0 ==> (r matches Err(StoreError::Validation(m))
                && m@ == "file_name required"@ && *final(self) == *old(self)),
            trim(request.file_name@).len() > 0 ==> {
                let n = (old(self).next_id_view() + 1) as nat;
                let id = numbered_id("upl"@, n);
                let part = match request.size { Some(s) => if s < 1 { 1 } else { s }, None => DEFAULT_PART_SIZE };
                &&& final(self).next_id_view() == n
                &&& r matches Ok(sess)
                &&& sess.upload_id@ == id
                &&& sess.put_url@ == url_join(public_base@, "/v1/uploads/"@ + id + "/bytes"@)
                &&& sess.part_size == part
                &&& sess.expires_in_secs == UPLOAD_URL_TTL_SECS
                &&& sess.schema_version == REMOTE_SCHEMA_VERSION
                &&& final(self).upload(id) == Some(UploadRecord {
                    init: request,
                    object_key: final(self).upload(id).unwrap().object_key,
                    bytes_received: None,
                    received_checksum: None,
                    completed: false,
                })
                &&& final(self).upload(id).unwrap().object_key@ == "uploads/"@ + id
                &&& forall|k: Seq<char>| k != id ==> #[trigger] final(self).upload(k) == old(self).upload(k)
                &&& final(self).jobs_view() == old(self).jobs_view()
                &&& final(self).assets_view() == old(self).assets_view()
            },
    {
        let fname = chars_of_string(&request.file_name);
        let trimmed = trim_vec(&fname);
        if trimmed.len() == 0 {
            return Err(StoreError::Validation(string_of("file_name required")));
        }
        self.next_id = self.next_id + 1;
        let mut idv: Vec<char> = Vec::new();
        push_str(&mut idv, "upl-");
        push_decimal(&mut idv, self.next_id);
        let upload_id = string_from_chars(&idv);
        let part_size = match request.size {
            Some(s) => if s < 1 { 1 } else { s },
            None => DEFAULT_PART_SIZE,
        };
        let mut keyv: Vec<char> = Vec::new();
        push_str(&mut keyv, "uploads/");
        push_all(&mut keyv, &idv);
        let object_key = string_from_chars(&keyv);
        let url = join_url3(public_base, "/v1/uploads/", &upload_id, "/bytes");
        proof {
            reveal_strlit("upl-");
            reveal_strlit("upl");
            reveal_strlit("-");
            assert(upload_id@ =~= numbered_id("upl"@, self.next_id as nat));
        }
        let entry = UploadEntry {
            upload_id: upload_id.clone(),
            record: UploadRecord {
                init: request,
                object_key,
                bytes_received: None,
                received_checksum: None,
                completed: false,
            },
        };
        let ghost e = entry;
        let _ = upsert(&mut self.uploads, entry);
        proof {
            assert forall|k: Seq<char>| k != upload_id@ implies #[trigger] self.upload(k) == old(self).upload(k) by {
                assert(lookup(self.uploads@, k) == lookup(old(self).uploads@, k));
            }
        }
        Ok(RemoteUploadSession::single_put(upload_id, url, part_size, UPLOAD_URL_TTL_SECS))
    }

    /// The state of upload `upload_id`; `NotFound` carrying the id when unknown.
    pub fn get_upload(&self, upload_id: &str) -> (r: Result<UploadRecord, StoreError>)
        requires
            self.wf(),
        ensures
            match self.upload(upload_id@) {
                Some(rec) => r == Ok::<UploadRecord, StoreError>(rec),
                None => r matches Err(StoreError::NotFound(m)) && m@ == upload_id@,
            },
    {
        let id = string_of(upload_id);
        match find_key(&self.uploads, &id) {
            Some(i) => Ok(self.uploads[i].record.clone()),
            None => Err(StoreError::NotFound(id)),
        }
    }

    /// Records that `size` bytes (with an optional checksum) arrived for an upload.
    /// Refused with `NotFound` for an unknown upload, `Conflict` once it is completed,
    /// and `Validation` when the size differs from the announced one or both checksums
    /// are known and differ; the state is then unchanged.
    pub fn mark_upload_bytes(&mut self, upload_id: &str, size: u64, checksum: Option<String>) -> (r: Result<(), StoreError>)
        requires
            old(self).wf(),
        ensures
            final(self).wf(),
            final(self).jobs_view() == old(self).jobs_view(),
            final(self).assets_view() == old(self).assets_view(),
            final(self).next_id_view() == old(self).next_id_view(),
            match old(self).upload(upload_id@) {
                None => r matches Err(StoreError::NotFound(m)) && m@ == upload_id@ && *final(self) == *old(self),
                Some(rec) => if rec.completed {
                    r matches Err(StoreError::Conflict(m)) && m@ == "upload already completed"@ && *final(self) == *old(self)
                } else if rec.init.size is Some && rec.init.size != Some(size) {
                    r matches Err(StoreError::Validation(m)) && m@ == "size mismatch: expected "@
                        + decimal(rec.init.size.unwrap() as nat) + ", got "@ + decimal(size as nat)
                        && *final(self) == *old(self)
                } else if !checksums_agree(rec.init.checksum, checksum) {
                    r matches Err(StoreError::Validation(m)) && m@ == "checksum mismatch"@ && *final(self) == *old(self)
                } else {
                    &&& r is Ok
                    &&& final(self).upload(upload_id@) == Some(UploadRecord {
                        bytes_received: Some(size),
                        received_checksum: checksum,
                        ..rec
                    })
                    &&& forall|k: Seq<char>| k != upload_id@ ==> #[trigger] final(self).upload(k) == old(self).upload(k)
                },
            },
    {
        let id = string_of(upload_id);
        let i = match find_key(&self.uploads, &id) {
            Some(i) => i,
            None => return Err(StoreError::NotFound(id)),
        };
        if self.uploads[i].record.completed {
            return Err(StoreError::Conflict(string_of("upload already completed")));
        }
        if let Some(expected) = self.uploads[i].record.init.size {
            if expected != size {
                let mut m: Vec<char> = Vec::new();
                push_str(&mut m, "size mismatch: expected ");
                push_decimal(&mut m, expected);
                push_str(&mut m, ", got ");
                push_decimal(&mut m, size);
                return Err(StoreError::Validation(string_from_chars(&m)));
            }
        }
        if !checksums_agree_exec(&self.uploads[i].record.init.checksum, &checksum) {
            return Err(StoreError::Validation(string_of("checksum mismatch")));
        }
        let mut entry = self.uploads.remove(i);
        entry.record.bytes_received = Some(size);
        entry.record.received_checksum = checksum;
        self.uploads.insert(i, entry);
        proof {
            let o = old(self).uploads@;
            let n = self.uploads@;
            assert forall|a: int| 0 <= a < n.len() && a != i implies #[trigger] n[a] == o[a] by {}
            assert forall|a: int, b: int| 0 <= a < n.len() && 0 <= b < n.len() && a != b implies #[trigger] n[a].key()
                != #[trigger] n[b].key() by {
                assert(n[a].key() == o[a].key());
                assert(n[b].key() == o[b].key());
            }
            lemma_lookup_at(n, i as int);
            assert forall|k: Seq<char>| k != upload_id@ implies #[trigger] self.upload(k) == old(self).upload(k) by {
                if has_key(o, k) {
                    let j = key_index(o, k);
                    assert(j != i);
                    lemma_lookup_at(n, j);
                }
                if has_key(n, k) {
                    let j = key_index(n, k);
                    assert(j != i);
                    lemma_lookup_at(o, j);
                }
            }
        }
        Ok(())
    }

    /// Completes an upload: the upload is marked completed and becomes asset
    /// `"asset-{upload id}"` with the file's name and type, the received size (or the
    /// announced one), the first known checksum among the request's, the received one
    /// and the announced one, and its download URL under `public_base`. Refused with
    /// `NotFound` for an unknown upload, and with `Validation` (state unchanged) when no
    /// bytes were received or the chosen checksum differs from the announced one.
    pub fn complete_upload(&mut self, request: RemoteUploadCompleteRequest, public_base: &str) -> (r: Result<RemoteUploadCompleteResponse, StoreError>)
        requires
            old(self).wf(),
        ensures
            final(self).wf(),
            final(self).jobs_view() == old(self).jobs_view(),
            final(self).next_id_view() == old(self).next_id_view(),
            match old(self).upload(request.upload_id@) {
                None => r matches Err(StoreError::NotFound(m)) && m == request.upload_id && *final(self) == *old(self),
                Some(rec) => {
                    let cs = completion_checksum(request.checksum, rec);
                    if rec.bytes_received is None {
                        r matches Err(StoreError::Validation(m))
                            && m@ == "upload bytes not received; PUT /v1/uploads/{id}/bytes first"@
                            && *final(self) == *old(self)
                    } else if !checksums_agree(rec.init.checksum, cs) {
                        r matches Err(StoreError::Validation(m)) && m@ == "checksum mismatch"@ && *final(self) == *old(self)
                    } else {
                        let aid = "asset-"@ + request.upload_id@;
                        &&& r matches Ok(resp)
                        &&& resp.schema_version == REMOTE_SCHEMA_VERSION
                        &&& resp.asset.id@ == aid
                        &&& resp.asset.name == rec.init.file_name
                        &&& resp.asset.mime == rec.init.mime
                        &&& resp.asset.size == rec.bytes_received
                        &&& resp.asset.checksum == cs
                        &&& resp.asset.download_url matches Some(u) && u@ == artifact_url(public_base@, aid)
                        &&& final(self).asset(aid) == Some(resp.asset)
                        &&& forall|k: Seq<char>| k != aid ==> #[trigger] final(self).asset(k) == old(self).asset(k)
                        &&& final(self).upload(request.upload_id@) == Some(UploadRecord { completed: true, ..rec })
                        &&& forall|k: Seq<char>| k != request.upload_id@ ==> #[trigger] final(self).upload(k) == old(self).upload(k)
                    }
                },
            },
    {
        let i = match find_key(&self.uploads, &request.upload_id) {
            Some(i) => i,
            None => return Err(StoreError::NotFound(request.upload_id)),
        };
        if self.uploads[i].record.bytes_received.is_none() {
            return Err(StoreError::Validation(string_of("upload bytes not received; PUT /v1/uploads/{id}/bytes first")));
        }
        let checksum = match &request.checksum {
            Some(c) => Some(c.clone()),
            None => match &self.uploads[i].record.received_checksum {
                Some(c) => Some(c.clone()),
                None => clone_opt_string(&self.uploads[i].record.init.checksum),
            },
        };
        if !checksums_agree_exec(&self.uploads[i].record.init.checksum, &checksum) {
            return Err(StoreError::Validation(string_of("checksum mismatch")));
        }
        let mut entry = self.uploads.remove(i);
        entry.record.completed = true;
        let mut aidv: Vec<char> = Vec::new();
        push_str(&mut aidv, "asset-");
        let uid = chars_of_string(&request.upload_id);
        push_all(&mut aidv, &uid);
        let asset_id = string_from_chars(&aidv);
        let url = join_url3(public_base, "/v1/artifacts/", &asset_id, "/content");
        let asset = RemoteAssetRef {
            id: asset_id,
            name: entry.record.init.file_name.clone(),
            mime: clone_opt_string(&entry.record.init.mime),
            size: match entry.record.bytes_received { Some(b) => Some(b), None => entry.record.init.size },
            checksum,
            download_url: Some(url),
        };
        self.uploads.insert(i, entry);
        let _ = upsert(&mut self.assets, asset.clone());
        proof {
            let o = old(self).uploads@;
            let n = self.uploads@;
            assert forall|a: int| 0 <= a < n.len() && a != i implies #[trigger] n[a] == o[a] by {}
            assert forall|a: int, b: int| 0 <= a < n.len() && 0 <= b < n.len() && a != b implies #[trigger] n[a].key()
                != #[trigger] n[b].key() by {
                assert(n[a].key() == o[a].key());
                assert(n[b].key() == o[b].key());
            }
            lemma_lookup_at(n, i as int);
            assert forall|k: Seq<char>| k != request.upload_id@ implies #[trigger] self.upload(k) == old(self).upload(k) by {
                if has_key(o, k) {
                    let j = key_index(o, k);
                    assert(j != i);
                    lemma_lookup_at(n, j);
                }
                if has_key(n, k) {
                    let j = key_index(n, k);
                    assert(j != i);
                    lemma_lookup_at(o, j);
                }
            }
            reveal_strlit("/v1/artifacts/");
            reveal_strlit("/content");
        }
        Ok(RemoteUploadCompleteResponse { schema_version: REMOTE_SCHEMA_VERSION, asset })
    }

    /// Forgets an upload; unknown ids are ignored.
    pub fn abort_upload(&mut self, upload_id: &str) -> (r: Result<(), StoreError>)
        requires
            old(self).wf(),
        ensures
            final(self).wf(),
            r is Ok,
            final(self).upload(upload_id@) is None,
            forall|k: Seq<char>| k != upload_id@ ==> #[trigger] final(self).upload(k) == old(self).upload(k),
            final(self).jobs_view() == old(self).jobs_view(),
            final(self).assets_view() == old(self).assets_view(),
            final(self).next_id_view() == old(self).next_id_view(),
    {
        let id = string_of(upload_id);
        let _ = remove_key(&mut self.uploads, &id);
        proof {
            assert forall|k: Seq<char>| k != upload_id@ implies #[trigger] self.upload(k) == old(self).upload(k) by {
                assert(lookup(self.uploads@, k) == lookup(old(self).uploads@, k));
            }
        }
        Ok(())
    }

    /// Registers an asset under its id, replacing an earlier one.
    pub fn register_asset(&mut self, asset: RemoteAssetRef) -> (r: Result<(), StoreError>)
        requires
            old(self).wf(),
        ensures
            final(self).wf(),
            r is Ok,
            upserted(old(self).assets_view(), final(self).assets_view(), asset),
            final(self).jobs_view() == old(self).jobs_view(),
            final(self).uploads_view() == old(self).uploads_view(),
            final(self).next_id_view() == old(self).next_id_view(),
    {
        let _ = upsert(&mut self.assets, asset);
        Ok(())
    }

    /// The asset `asset_id`; `NotFound` carrying the id when unknown.
    pub fn get_asset(&self, asset_id: &str) -> (r: Result<RemoteAssetRef, StoreError>)
        requires
            self.wf(),
        ensures
            match self.asset(asset_id@) {
                Some(a) => r == Ok::<RemoteAssetRef, StoreError>(a),
                None => r matches Err(StoreError::NotFound(m)) && m@ == asset_id@,
            },
    {
        let id = string_of(asset_id);
        match find_key(&self.assets, &id) {
            Some(i) => Ok(self.assets[i].clone()),
            None => Err(StoreError::NotFound(id)),
        }
    }

    /// A download credential for `asset_id` valid for an hour from `now`: the asset's
    /// own URL, or its artifact URL under `public_base`; `NotFound` when unknown.
    pub fn download_credential_at(&self, asset_id: &str, public_base: &str, now: u64) -> (r: Result<RemoteDownloadCredential, StoreError>)
        requires
            self.wf(),
            now <= u64::MAX - DOWNLOAD_TTL_SECS,
        ensures
            match self.asset(asset_id@) {
                Some(a) => r matches Ok(c) && c.schema_version == REMOTE_SCHEMA_VERSION && c.asset_id == a.id
                    && c.download_url@ == (match a.download_url { Some(u) => u@, None => artifact_url(public_base@, asset_id@) })
                    && c.expires_at == now + DOWNLOAD_TTL_SECS && c.checksum == a.checksum,
                None => r matches Err(StoreError::NotFound(m)) && m@ == asset_id@,
            },
    {
        let id = string_of(asset_id);
        match find_key(&self.assets, &id) {
            Some(i) => {
                let a = &self.assets[i];
                let url = match &a.download_url {
                    Some(u) => u.clone(),
                    None => {
                        let u = join_url3(public_base, "/v1/artifacts/", &id, "/content");
                        proof {
                            reveal_strlit("/v1/artifacts/");
                            reveal_strlit("/content");
                        }
                        u
                    },
                };
                Ok(RemoteDownloadCredential {
                    schema_version: REMOTE_SCHEMA_VERSION,
                    asset_id: a.id.clone(),
                    download_url: url,
                    expires_at: now + DOWNLOAD_TTL_SECS,
                    checksum: clone_opt_string(&a.checksum),
                })
            },
            None => Err(StoreError::NotFound(id)),
        }
    }

    /// A download credential for `asset_id`, valid for an hour from the current time (so
    /// expiring no earlier than an hour after the epoch);
    /// `NotFound` carrying the id when the asset is unknown. A known asset fails only when
    /// the clock reads so late that the expiry would not fit in 64 bits.
    pub fn download_credential(&self, asset_id: &str, public_base: &str) -> (r: Result<RemoteDownloadCredential, StoreError>)
        requires
            self.wf(),
        ensures
            self.asset(asset_id@) is None ==> (r matches Err(StoreError::NotFound(m)) && m@ == asset_id@),
            self.asset(asset_id@) is Some ==> (r is Ok || (r matches Err(StoreError::Internal(m)) && m@ == "clock out of range"@)),
            r matches Ok(c) ==> (self.asset(asset_id@) matches Some(a) && c.schema_version == REMOTE_SCHEMA_VERSION
                && c.asset_id == a.id && c.checksum == a.checksum
                && c.download_url@ == (match a.download_url { Some(u) => u@, None => artifact_url(public_base@, asset_id@) })
                && c.expires_at >= DOWNLOAD_TTL_SECS),
    {
        let now = now_unix();
        if now > u64::MAX - DOWNLOAD_TTL_SECS {
            return match self.get_asset(asset_id) {
                Ok(_) => Err(StoreError::Internal(string_of("clock out of range"))),
                Err(e) => Err(e),
            };
        }
        self.download_credential_at(asset_id, public_base, now)
    }

    /// The page of assets, ordered by id, selected by `query`'s offset and limit,
    /// each listed as created at `now`; `total` counts all assets.
    pub fn list_assets_at(&self, query: RemotePageQuery, now: u64) -> (r: Result<RemotePage<RemoteAssetListItem>, StoreError>)
        requires
            self.wf(),
        ensures
            r matches Ok(p) && p.total == self.assets_view().len() && asset_listing(*self, query, now, p.items@),
    {
        let mut items: Vec<RemoteAssetListItem> = Vec::new();
        let mut i: usize = 0;
        let ghost src = self.assets@.map_values(|a: RemoteAssetRef| listed(a, now));
        while i < self.assets.len()
            invariant
                i <= self.assets@.len(),
                src == self.assets@.map_values(|a: RemoteAssetRef| listed(a, now)),
                items@ == src.subrange(0, i as int),
            decreases self.assets@.len() - i,
        {
            items.push(RemoteAssetListItem { asset: self.assets[i].clone(), created_at: Some(now), tags: None });
            i += 1;
            assert(items@ =~= src.subrange(0, i as int));
        }
        proof {
            assert(items@ =~= src);
            assert forall|a: int, b: int| 0 <= a < src.len() && 0 <= b < src.len() && a != b implies #[trigger] src[a].key()
                != #[trigger] src[b].key() by {
                assert(src[a].key() == self.assets@[a].key());
                assert(src[b].key() == self.assets@[b].key());
            }
        }
        let total = items.len();
        let sorted = sort_by_key(items);
        let page = take_page(sorted, query.offset, query.limit);
        Ok(RemotePage::new(page, total))
    }

    /// Lists assets, stamped with the current time.
    pub fn list_assets(&self, query: RemotePageQuery) -> (r: Result<RemotePage<RemoteAssetListItem>, StoreError>)
        requires
            self.wf(),
        ensures
            r matches Ok(p) && p.total == self.assets_view().len()
                && exists|now: u64| #[trigger] asset_listing(*self, query, now, p.items@),
    {
        let now = now_unix();
        let ghost q = query;
        let r = self.list_assets_at(query, now);
        proof {
            let p = r->Ok_0;
            assert(asset_listing(*self, q, now, p.items@));
        }
        r
    }

    /// Records a job given up for good.
    pub fn put_dead_letter(&mut self, record: DeadLetterRecord) -> (r: Result<(), StoreError>)
        requires
            old(self).wf(),
        ensures
            final(self).wf(),
            r is Ok,
            final(self).dead_letters_view() == old(self).dead_letters_view().push(record),
            final(self).jobs_view() == old(self).jobs_view(),
            final(self).results_view() == old(self).results_view(),
            final(self).uploads_view() == old(self).uploads_view(),
            final(self).assets_view() == old(self).assets_view(),
    {
        self.dead_letters.push(record);
        Ok(())
    }

    /// All dead letters, oldest first.
    pub fn list_dead_letters(&self) -> (r: Result<Vec<DeadLetterRecord>, StoreError>)
        ensures
            r matches Ok(v) && v@ == self.dead_letters_view(),
    {
        let mut out: Vec<DeadLetterRecord> = Vec::new();
        let mut i: usize = 0;
        while i < self.dead_letters.len()
            invariant
                i <= self.dead_letters@.len(),
                out@ == self.dead_letters@.subrange(0, i as int),
            decreases self.dead_letters@.len() - i,
        {
            out.push(self.dead_letters[i].clone());
            i += 1;
            assert(out@ =~= self.dead_letters@.subrange(0, i as int));
        }
        assert(out@ =~= self.dead_letters@);
        Ok(out)
    }

    /// The review item with id `id`, if any.
    pub open spec fn item(&self, id: Seq<char>) -> Option<RemoteReviewItem> {
        lookup(self.items_view(), id)
    }

    /// The batch with id `id`, if any.
    pub open spec fn batch(&self, id: Seq<char>) -> Option<RemoteBatch> {
        lookup(self.batches_view(), id)
    }

    /// Creates a review batch at time `now` with one pending item per asset id, in
    /// order. The batch is `"batch-{n}"` for the next counter value `n` and its items
    /// `"item-{n+1}"`, `"item-{n+2}"`, ...; the first asset is the batch's cover. The
    /// batch is refused with `NotFound("asset {id}")` for the first unknown asset id.
    pub fn create_batch_at(&mut self, request: CreateRemoteBatchRequest, now: u64) -> (r: Result<RemoteBatch, StoreError>)
        requires
            old(self).wf(),
            old(self).next_id_view() + 1 + request.asset_ids@.len() <= u64::MAX,
        ensures
            final(self).wf(),
            create_batch_post(*old(self), request, now, *final(self), r),
    {
        let ghost n0 = self.next_id as nat;
        self.next_id = self.next_id + 1;
        let mut bidv: Vec<char> = Vec::new();
        push_str(&mut bidv, "batch-");
        push_decimal(&mut bidv, self.next_id);
        let batch_id = string_from_chars(&bidv);
        proof {
            reveal_strlit("batch-");
            reveal_strlit("batch");
            reveal_strlit("item-");
            reveal_strlit("item");
            reveal_strlit("-");
            assert(batch_id@ =~= numbered_id("batch"@, n0 + 1));
        }
        let source = match request.kind {
            RemoteBatchKind::Image => RemoteJobSource::Review,
            RemoteBatchKind::Video => RemoteJobSource::VideoReview,
        };
        let mut cover: Option<RemoteAssetRef> = None;
        let mut j: usize = 0;
        let ghost old_items = self.review_items@;
        while j < request.asset_ids.len()
            invariant
                j <= request.asset_ids@.len(),
                old(self).wf(),
                old(self).next_id_view() + 1 + request.asset_ids@.len() <= u64::MAX,
                self.next_id == n0 + 1 + j,
                n0 == old(self).next_id as nat,
                batch_id@ == numbered_id("batch"@, n0 + 1),
                unique_keys(self.review_items@),
                self.assets == old(self).assets,
                self.jobs == old(self).jobs,
                self.uploads == old(self).uploads,
                self.results == old(self).results,
                self.events == old(self).events,
                self.idempotency == old(self).idempotency,
                self.batches == old(self).batches,
                self.review_batches == old(self).review_batches,
                self.annotations == old(self).annotations,
                self.extract_results == old(self).extract_results,
                self.dead_letters == old(self).dead_letters,
                unique_keys(self.assets@),
                forall|i: int| 0 <= i < j ==> #[trigger] old(self).asset(request.asset_ids@[i]@) is Some,
                cover == (if j > 0 { old(self).asset(request.asset_ids@[0]@) } else { None }),
                forall|i: int| 0 <= i < j ==> {
                    let it = #[trigger] lookup(self.review_items@, batch_item_id(n0, i));
                    &&& it matches Some(item)
                    &&& item.item_id@ == batch_item_id(n0, i)
                    &&& item.batch_id@ == numbered_id("batch"@, n0 + 1)
                    &&& Some(item.asset) == old(self).asset(request.asset_ids@[i]@)
                    &&& item.status == RemoteReviewItemStatus::Pending
                    &&& item.remark@.len() == 0
                    &&& item.tags@.len() == 0
                    &&& item.thumb_asset is None && item.preview_asset is None
                    &&& item.duration_ms is None && item.width is None && item.height is None
                    &&& item.updated_at == now
                    &&& item.schema_version == REMOTE_SCHEMA_VERSION
                },
                forall|k: Seq<char>| (forall|i: int| 0 <= i < j ==> k != #[trigger] batch_item_id(n0, i))
                    ==> #[trigger] lookup(self.review_items@, k) == lookup(old_items, k),
            decreases request.asset_ids@.len() - j,
        {
            let asset = match find_key(&self.assets, &request.asset_ids[j]) {
                Some(a) => self.assets[a].clone(),
                None => {
                    let mut m: Vec<char> = Vec::new();
                    push_str(&mut m, "asset ");
                    let idc = chars_of_string(&request.asset_ids[j]);
                    push_all(&mut m, &idc);
                    proof {
                        let c = choose|c: int| 0 <= c < request.asset_ids@.len() && old(self).asset(request.asset_ids@[c]@) is None
                            && forall|i: int| 0 <= i < c ==> #[trigger] old(self).asset(request.asset_ids@[i]@) is Some;
                        assert(c == j) by {
                            if c < j {
                            } else if c > j {
                                assert(old(self).asset(request.asset_ids@[j as int]@) is None);
                            }
                        }
                    }
                    return Err(StoreError::NotFound(string_from_chars(&m)));
                },
            };
            if cover.is_none() {
                cover = Some(asset.clone());
            }
            self.next_id = self.next_id + 1;
            let mut iidv: Vec<char> = Vec::new();
            push_str(&mut iidv, "item-");
            push_decimal(&mut iidv, self.next_id);
            let item_id = string_from_chars(&iidv);
            proof {
                reveal_strlit("item-");
                reveal_strlit("item");
                reveal_strlit("-");
                assert(item_id@ =~= batch_item_id(n0, j as int));
            }
            let item = RemoteReviewItem {
                schema_version: REMOTE_SCHEMA_VERSION,
                item_id,
                batch_id: batch_id.clone(),
                asset,
                status: RemoteReviewItemStatus::Pending,
                remark: String::new(),
                tags: Vec::new(),
                thumb_asset: None,
                preview_asset: None,
                duration_ms: None,
                width: None,
                height: None,
                updated_at: now,
            };
            let ghost before = self.review_items@;
            let _ = upsert(&mut self.review_items, item);
            proof {
                assert forall|i: int| 0 <= i < j implies batch_item_id(n0, i) != batch_item_id(n0, j as int) by {
                    let a = batch_item_id(n0, i);
                    let b = batch_item_id(n0, j as int);
                    if a == b {
                        assert(a.subrange(5, a.len() as int) =~= decimal((n0 + 2 + i) as nat));
                        assert(b.subrange(5, b.len() as int) =~= decimal((n0 + 2 + j) as nat));
                        lemma_decimal_injective((n0 + 2 + i) as nat, (n0 + 2 + j) as nat);
                    }
                }
                assert forall|k: Seq<char>| (forall|i: int| 0 <= i < j + 1 ==> k != #[trigger] batch_item_id(n0, i))
                    implies #[trigger] lookup(self.review_items@, k) == lookup(old_items, k) by {
                    assert(k != batch_item_id(n0, j as int));
                    assert(lookup(self.review_items@, k) == lookup(before, k));
                }
            }
            j += 1;
        }
        let batch = RemoteBatch {
            schema_version: REMOTE_SCHEMA_VERSION,
            batch_id: batch_id.clone(),
            name: request.name,
            kind: request.kind,
            source,
            workspace_id: request.workspace_id,
            item_count: request.asset_ids.len(),
            created_at: now,
            updated_at: now,
            cover_asset: clone_opt_asset(&cover),
            status_summary: Some(string_of("pending")),
        };
        let _ = upsert(&mut self.batches, batch.clone());
        self.review_batches.push(RemoteReviewBatchSummary {
            batch_id,
            name: batch.name.clone(),
            source,
            item_count: batch.item_count,
            updated_at: now,
            cover_asset: cover,
        });
        Ok(batch)
    }

    /// Creates a review batch stamped with the current time.
    pub fn create_batch(&mut self, request: CreateRemoteBatchRequest) -> (r: Result<RemoteBatch, StoreError>)
        requires
            old(self).wf(),
            old(self).next_id_view() + 1 + request.asset_ids@.len() <= u64::MAX,
        ensures
            final(self).wf(),
            exists|now: u64| #[trigger] create_batch_post(*old(self), request, now, *final(self), r),
    {
        let now = now_unix();
        let r = self.create_batch_at(request, now);
        assert(create_batch_post(*old(self), request, now, *self, r));
        r
    }

    /// The batch `batch_id`; `NotFound` carrying the id when unknown.
    pub fn get_batch(&self, batch_id: &str) -> (r: Result<RemoteBatch, StoreError>)
        requires
            self.wf(),
        ensures
            match self.batch(batch_id@) {
                Some(b) => r == Ok::<RemoteBatch, StoreError>(b),
                None => r matches Err(StoreError::NotFound(m)) && m@ == batch_id@,
            },
    {
        let id = string_of(batch_id);
        match find_key(&self.batches, &id) {
            Some(i) => Ok(self.batches[i].clone()),
            None => Err(StoreError::NotFound(id)),
        }
    }

    /// The review item `item_id`; `NotFound` carrying the id when unknown.
    pub fn get_review_item(&self, item_id: &str) -> (r: Result<RemoteReviewItem, StoreError>)
        requires
            self.wf(),
        ensures
            match self.item(item_id@) {
                Some(it) => r matches Ok(out) && same_item(out, it),
                None => r matches Err(StoreError::NotFound(m)) && m@ == item_id@,
            },
    {
        let id = string_of(item_id);
        match find_key(&self.review_items, &id) {
            Some(i) => Ok(self.review_items[i].clone_item()),
            None => Err(StoreError::NotFound(id)),
        }
    }

    /// Marks batch `batch_id` and its first listing entry as updated at `now`, and
    /// gives them `cover` as cover asset when they have none.
    fn touch_batch(&mut self, batch_id: &String, now: u64, cover: Option<RemoteAssetRef>)
        requires
            old(self).wf(),
        ensures
            final(self).wf(),
            final(self).jobs == old(self).jobs,
            final(self).results == old(self).results,
            final(self).events == old(self).events,
            final(self).idempotency == old(self).idempotency,
            final(self).uploads == old(self).uploads,
            final(self).assets == old(self).assets,
            final(self).dead_letters == old(self).dead_letters,
            final(self).review_items == old(self).review_items,
            final(self).annotations == old(self).annotations,
            final(self).extract_results == old(self).extract_results,
            final(self).next_id == old(self).next_id,
            match old(self).batch(batch_id@) {
                Some(b) => final(self).batch(batch_id@) == Some(touched_batch(b, now, cover)),
                None => final(self).batch(batch_id@) is None,
            },
            forall|k: Seq<char>| k != batch_id@ ==> #[trigger] final(self).batch(k) == old(self).batch(k),
            final(self).review_batches_view() == touched_summaries(old(self).review_batches_view(), batch_id@, now, cover),
    {
        match find_key(&self.batches, batch_id) {
            Some(i) => {
                let mut b = self.batches[i].clone();
                b.updated_at = now;
                if b.cover_asset.is_none() {
                    b.cover_asset = clone_opt_asset(&cover);
                }
                let _ = upsert(&mut self.batches, b);
            },
            None => {},
        }
        match find_first_key(&self.review_batches, batch_id) {
            Some(i) => {
                let mut sm = self.review_batches[i].clone();
                sm.updated_at = now;
                if sm.cover_asset.is_none() {
                    sm.cover_asset = cover;
                }
                self.review_batches.set(i, sm);
            },
            None => {},
        }
    }

    /// Applies the given changes to review item `item_id` at time `now` and marks its
    /// batch as updated; `NotFound` carrying the id when the item is unknown.
    pub fn update_review_item_at(&mut self, item_id: &str, request: UpdateRemoteReviewItemRequest, now: u64) -> (r: Result<RemoteReviewItem, StoreError>)
        requires
            old(self).wf(),
        ensures
            final(self).wf(),
            final(self).jobs_view() == old(self).jobs_view(),
            final(self).assets_view() == old(self).assets_view(),
            final(self).next_id_view() == old(self).next_id_view(),
            match old(self).item(item_id@) {
                None => r matches Err(StoreError::NotFound(m)) && m@ == item_id@ && *final(self) == *old(self),
                Some(it) => {
                    &&& r matches Ok(out)
                    &&& final(self).item(item_id@) matches Some(new_it)
                    &&& same_item(out, new_it)
                    &&& new_it.status == (match request.status { Some(s) => s, None => it.status })
                    &&& new_it.remark == (match request.remark { Some(m) => m, None => it.remark })
                    &&& new_it.tags@ == (match request.tags { Some(t) => t@, None => it.tags@ })
                    &&& new_it.updated_at == now
                    &&& new_it.item_id == it.item_id && new_it.batch_id == it.batch_id && new_it.asset == it.asset
                    &&& new_it.thumb_asset == it.thumb_asset && new_it.preview_asset == it.preview_asset
                    &&& new_it.duration_ms == it.duration_ms && new_it.width == it.width && new_it.height == it.height
                    &&& new_it.schema_version == it.schema_version
                    &&& forall|k: Seq<char>| k != item_id@ ==> #[trigger] final(self).item(k) == old(self).item(k)
                    &&& match old(self).batch(it.batch_id@) {
                        Some(b) => final(self).batch(it.batch_id@) == Some(touched_batch(b, now, None)),
                        None => final(self).batch(it.batch_id@) is None,
                    }
                    &&& forall|k: Seq<char>| k != it.batch_id@ ==> #[trigger] final(self).batch(k) == old(self).batch(k)
                    &&& final(self).review_batches_view() == touched_summaries(old(self).review_batches_view(), it.batch_id@, now, None)
                },
            },
    {
        let id = string_of(item_id);
        let i = match find_key(&self.review_items, &id) {
            Some(i) => i,
            None => return Err(StoreError::NotFound(id)),
        };
        let mut item = self.review_items[i].clone_item();
        if let Some(status) = request.status {
            item.status = status;
        }
        if let Some(remark) = request.remark {
            item.remark = remark;
        }
        if let Some(tags) = request.tags {
            item.tags = tags;
        }
        item.updated_at = now;
        let out = item.clone_item();
        let batch_id = item.batch_id.clone();
        let ghost new_it = item;
        let _ = upsert(&mut self.review_items, item);
        proof {
            lemma_lookup_at(old(self).review_items@, i as int);
        }
        self.touch_batch(&batch_id, now, None);
        Ok(out)
    }

    /// Applies changes to a review item, stamped with the current time.
    pub fn update_review_item(&mut self, item_id: &str, request: UpdateRemoteReviewItemRequest) -> (r: Result<RemoteReviewItem, StoreError>)
        requires
            old(self).wf(),
        ensures
            final(self).wf(),
            old(self).item(item_id@) is None <==> r is Err,
    {
        let now = now_unix();
        self.update_review_item_at(item_id, request, now)
    }

    /// Attaches generated assets and media facts to review item `item_id` at time
    /// `now` (absent ones are left as they are) and marks its batch as updated; a
    /// batch without a cover takes the item's thumbnail, else its preview, else its
    /// asset. `NotFound` carrying the id when the item is unknown.
    pub fn update_review_item_assets_at(
        &mut self,
        item_id: &str,
        thumb_asset: Option<RemoteAssetRef>,
        preview_asset: Option<RemoteAssetRef>,
        duration_ms: Option<u64>,
        dimensions: Option<(u32, u32)>,
        now: u64,
    ) -> (r: Result<RemoteReviewItem, StoreError>)
        requires
            old(self).wf(),
        ensures
            final(self).wf(),
            final(self).jobs_view() == old(self).jobs_view(),
            final(self).assets_view() == old(self).assets_view(),
            final(self).next_id_view() == old(self).next_id_view(),
            match old(self).item(item_id@) {
                None => r matches Err(StoreError::NotFound(m)) && m@ == item_id@ && *final(self) == *old(self),
                Some(it) => {
                    &&& r matches Ok(out)
                    &&& final(self).item(item_id@) matches Some(new_it)
                    &&& same_item(out, new_it)
                    &&& new_it.thumb_asset == (if thumb_asset is Some { thumb_asset } else { it.thumb_asset })
                    &&& new_it.preview_asset == (if preview_asset is Some { preview_asset } else { it.preview_asset })
                    &&& new_it.duration_ms == (if duration_ms is Some { duration_ms } else { it.duration_ms })
                    &&& new_it.width == (match dimensions { Some((w, _)) => Some(w), None => it.width })
                    &&& new_it.height == (match dimensions { Some((_, h)) => Some(h), None => it.height })
                    &&& new_it.updated_at == now
                    &&& new_it.item_id == it.item_id && new_it.batch_id == it.batch_id && new_it.asset == it.asset
                    &&& new_it.status == it.status && new_it.remark == it.remark && new_it.tags@ == it.tags@
                    &&& new_it.schema_version == it.schema_version
                    &&& forall|k: Seq<char>| k != item_id@ ==> #[trigger] final(self).item(k) == old(self).item(k)
                    &&& match old(self).batch(it.batch_id@) {
                        Some(b) => final(self).batch(it.batch_id@) == Some(touched_batch(b, now, Some(cover_candidate(new_it)))),
                        None => final(self).batch(it.batch_id@) is None,
                    }
                    &&& forall|k: Seq<char>| k != it.batch_id@ ==> #[trigger] final(self).batch(k) == old(self).batch(k)
                    &&& final(self).review_batches_view() == touched_summaries(
                        old(self).review_batches_view(), it.batch_id@, now, Some(cover_candidate(new_it)))
                },
            },
    {
        let id = string_of(item_id);
        let i = match find_key(&self.review_items, &id) {
            Some(i) => i,
            None => return Err(StoreError::NotFound(id)),
        };
        let mut item = self.review_items[i].clone_item();
        if let Some(a) = thumb_asset {
            item.thumb_asset = Some(a);
        }
        if let Some(a) = preview_asset {
            item.preview_asset = Some(a);
        }
        if let Some(d) = duration_ms {
            item.duration_ms = Some(d);
        }
        if let Some((w, h)) = dimensions {
            item.width = Some(w);
            item.height = Some(h);
        }
        item.updated_at = now;
        let out = item.clone_item();
        let cover = match &item.thumb_asset {
            Some(a) => a.clone(),
            None => match &item.preview_asset {
                Some(a) => a.clone(),
                None => item.asset.clone(),
            },
        };
        let batch_id = item.batch_id.clone();
        let _ = upsert(&mut self.review_items, item);
        proof {
            lemma_lookup_at(old(self).review_items@, i as int);
        }
        self.touch_batch(&batch_id, now, Some(cover));
        Ok(out)
    }

    /// Attaches generated assets to a review item, stamped with the current time.
    pub fn update_review_item_assets(
        &mut self,
        item_id: &str,
        thumb_asset: Option<RemoteAssetRef>,
        preview_asset: Option<RemoteAssetRef>,
        duration_ms: Option<u64>,
        dimensions: Option<(u32, u32)>,
    ) -> (r: Result<RemoteReviewItem, StoreError>)
        requires
            old(self).wf(),
        ensures
            final(self).wf(),
            old(self).item(item_id@) is None <==> r is Err,
    {
        let now = now_unix();
        self.update_review_item_assets_at(item_id, thumb_asset, preview_asset, duration_ms, dimensions, now)
    }

    /// The annotation with id `id`, if any.
    pub open spec fn annotation(&self, id: Seq<char>) -> Option<RemoteAnnotation> {
        lookup(self.annotations_view(), id)
    }

    /// Inserts or replaces an annotation at time `now`. One without an id gets
    /// `"ann-{n}"` for the next counter value `n`; a zero schema version becomes the
    /// current one and a zero creation time becomes `now`.
    pub fn upsert_annotation_at(&mut self, annotation: RemoteAnnotation, now: u64) -> (r: Result<RemoteAnnotation, StoreError>)
        requires
            old(self).wf(),
            old(self).next_id_view() < u64::MAX,
        ensures
            final(self).wf(),
            final(self).jobs_view() == old(self).jobs_view(),
            final(self).items_view() == old(self).items_view(),
            r matches Ok(a) && {
                &&& final(self).next_id_view() == (if annotation.annotation_id@.len() == 0 { old(self).next_id_view() + 1 } else { old(self).next_id_view() as int })
                &&& a.annotation_id@ == (if annotation.annotation_id@.len() == 0 {
                    numbered_id("ann"@, (old(self).next_id_view() + 1) as nat)
                } else {
                    annotation.annotation_id@
                })
                &&& a.schema_version == (if annotation.schema_version == 0 { REMOTE_SCHEMA_VERSION } else { annotation.schema_version })
                &&& a.created_at == (if annotation.created_at == 0 { now } else { annotation.created_at })
                &&& a.item_id == annotation.item_id && a.text == annotation.text && a.author == annotation.author
                &&& a.time_ms == annotation.time_ms
                &&& upserted(old(self).annotations_view(), final(self).annotations_view(), a)
            },
    {
        let mut ann = annotation;
        if ann.annotation_id.as_str().is_empty() {
            self.next_id = self.next_id + 1;
            let mut v: Vec<char> = Vec::new();
            push_str(&mut v, "ann-");
            push_decimal(&mut v, self.next_id);
            ann.annotation_id = string_from_chars(&v);
            proof {
                reveal_strlit("ann-");
                reveal_strlit("ann");
                reveal_strlit("-");
                assert(ann.annotation_id@ =~= numbered_id("ann"@, self.next_id as nat));
            }
        } else {
            proof {
                assert(annotation.annotation_id@.len() > 0);
            }
        }
        if ann.schema_version == 0 {
            ann.schema_version = REMOTE_SCHEMA_VERSION;
        }
        if ann.created_at == 0 {
            ann.created_at = now;
        }
        let _ = upsert(&mut self.annotations, ann.clone());
        Ok(ann)
    }

    /// Inserts or replaces an annotation, stamped with the current time.
    pub fn upsert_annotation(&mut self, annotation: RemoteAnnotation) -> (r: Result<RemoteAnnotation, StoreError>)
        requires
            old(self).wf(),
            old(self).next_id_view() < u64::MAX,
        ensures
            final(self).wf(),
            final(self).jobs_view() == old(self).jobs_view(),
            final(self).items_view() == old(self).items_view(),
            r matches Ok(a) && {
                &&& a.annotation_id@ == (if annotation.annotation_id@.len() == 0 {
                    numbered_id("ann"@, (old(self).next_id_view() + 1) as nat)
                } else {
                    annotation.annotation_id@
                })
                &&& a.schema_version == (if annotation.schema_version == 0 { REMOTE_SCHEMA_VERSION } else { annotation.schema_version })
                &&& annotation.created_at != 0 ==> a.created_at == annotation.created_at
                &&& a.item_id == annotation.item_id && a.text == annotation.text && a.author == annotation.author
                &&& a.time_ms == annotation.time_ms
                &&& upserted(old(self).annotations_view(), final(self).annotations_view(), a)
            },
    {
        let now = now_unix();
        self.upsert_annotation_at(annotation, now)
    }

    /// The annotation `annotation_id`; `NotFound` carrying the id when unknown.
    pub fn get_annotation(&self, annotation_id: &str) -> (r: Result<RemoteAnnotation, StoreError>)
        requires
            self.wf(),
        ensures
            match self.annotation(annotation_id@) {
                Some(a) => r == Ok::<RemoteAnnotation, StoreError>(a),
                None => r matches Err(StoreError::NotFound(m)) && m@ == annotation_id@,
            },
    {
        let id = string_of(annotation_id);
        match find_key(&self.annotations, &id) {
            Some(i) => Ok(self.annotations[i].clone()),
            None => Err(StoreError::NotFound(id)),
        }
    }

    /// The annotations of review item `item_id`, ordered by annotation id.
    pub fn list_annotations(&self, item_id: &str) -> (r: Result<Vec<RemoteAnnotation>, StoreError>)
        requires
            self.wf(),
        ensures
            r matches Ok(v) && sorted_by_key(v@)
                && v@.to_multiset() == self.annotations_view().filter(|a: RemoteAnnotation| a.item_id@ == item_id@).to_multiset(),
    {
        let id = string_of(item_id);
        let ghost pred = |a: RemoteAnnotation| a.item_id@ == item_id@;
        let mut out: Vec<RemoteAnnotation> = Vec::new();
        let mut i: usize = 0;
        while i < self.annotations.len()
            invariant
                i <= self.annotations@.len(),
                id@ == item_id@,
                pred == (|a: RemoteAnnotation| a.item_id@ == item_id@),
                out@ == self.annotations@.subrange(0, i as int).filter(pred),
            decreases self.annotations@.len() - i,
        {
            proof {
                assert(self.annotations@.subrange(0, i + 1).drop_last() =~= self.annotations@.subrange(0, i as int));
                reveal_with_fuel(Seq::filter, 1);
            }
            if self.annotations[i].item_id == id {
                out.push(self.annotations[i].clone());
            }
            i += 1;
        }
        proof {
            assert(self.annotations@.subrange(0, i as int) =~= self.annotations@);
            lemma_filter_unique_keys(self.annotations@, pred);
        }
        Ok(sort_by_key(out))
    }

    /// The items of batch `batch_id`, ordered by item id.
    #[verifier::spinoff_prover]
    pub fn list_review_items(&self, batch_id: &str) -> (r: Result<Vec<RemoteReviewItem>, StoreError>)
        requires
            self.wf(),
        ensures
            r matches Ok(v) && sorted_by_key(v@)
                && v@.len() == self.items_view().filter(|it: RemoteReviewItem| it.batch_id@ == batch_id@).len()
                && (forall|k: int| 0 <= k < v@.len() ==> #[trigger] batch_entry(*self, v@[k], batch_id@))
                && lists_whole_batch(*self, v@, batch_id@),
    {
        let id = string_of(batch_id);
        let ghost pred = |it: RemoteReviewItem| it.batch_id@ == batch_id@;
        let ghost items = self.review_items@;
        let mut out: Vec<RemoteReviewItem> = Vec::new();
        let ghost mut idx: Seq<int> = Seq::empty();
        let mut i: usize = 0;
        while i < self.review_items.len()
            invariant
                i <= items.len(),
                items == self.review_items@,
                id@ == batch_id@,
                unique_keys(items),
                pred == (|it: RemoteReviewItem| it.batch_id@ == batch_id@),
                out@.len() == items.subrange(0, i as int).filter(pred).len(),
                idx.len() == out@.len(),
                forall|k: int| 0 <= k < idx.len() ==> 0 <= #[trigger] idx[k] < i,
                forall|a: int, b: int| 0 <= a < b < idx.len() ==> #[trigger] idx[a] < #[trigger] idx[b],
                forall|k: int| 0 <= k < out@.len() ==> #[trigger] same_item(out@[k], items[idx[k]]) && out@[k].batch_id@ == batch_id@,
                forall|j: int| 0 <= j < i && #[trigger] items[j].batch_id@ == batch_id@ ==> exists|k: int| 0 <= k < idx.len() && idx[k] == j,
            decreases items.len() - i,
        {
            proof {
                assert(items.subrange(0, i + 1).drop_last() =~= items.subrange(0, i as int));
                reveal_with_fuel(Seq::filter, 1);
            }
            if self.review_items[i].batch_id == id {
                let ghost before = out@;
                let ghost old_idx = idx;
                let c = self.review_items[i].clone_item();
                assert(same_item(c, items[i as int]));
                assert(c.batch_id@ == batch_id@);
                out.push(c);
                proof {
                    idx = idx.push(i as int);
                    assert forall|j: int| 0 <= j < i + 1 && #[trigger] items[j].batch_id@ == batch_id@ implies exists|k: int| 0 <= k < idx.len() && idx[k] == j by {
                        if j == i {
                            assert(idx[before.len() as int] == i);
                        } else {
                            let k0 = choose|k: int| 0 <= k < old_idx.len() && old_idx[k] == j;
                            assert(idx[k0] == old_idx[k0]);
                        }
                    }
                    assert(out@[before.len() as int] == c);
                    assert(idx[before.len() as int] == i);
                    assert forall|k: int| 0 <= k < out@.len() implies #[trigger] same_item(out@[k], items[idx[k]])
                        && out@[k].batch_id@ == batch_id@ by {
                        if k < before.len() {
                            assert(out@[k] == before[k]);
                            assert(idx[k] == old_idx[k]);
                            assert(same_item(before[k], items[old_idx[k]]));
                        }
                    }
                }
            }
            assert(forall|k: int| 0 <= k < out@.len() ==> #[trigger] same_item(out@[k], items[idx[k]]) && out@[k].batch_id@ == batch_id@);
            i += 1;
            assert(forall|k: int| 0 <= k < out@.len() ==> #[trigger] same_item(out@[k], items[idx[k]]) && out@[k].batch_id@ == batch_id@);
        }
        proof {
            assert(items.subrange(0, i as int) =~= items);
            assert forall|a: int, b: int| 0 <= a < out@.len() && 0 <= b < out@.len() && a != b implies
                #[trigger] out@[a].key() != #[trigger] out@[b].key() by {
                assert(same_item(out@[a], items[idx[a]]));
                assert(same_item(out@[b], items[idx[b]]));
                assert(idx[a] != idx[b]) by {
                    if a < b { assert(idx[a] < idx[b]); } else { assert(idx[b] < idx[a]); }
                }
                assert(0 <= idx[a] < items.len() && 0 <= idx[b] < items.len());
                assert(items[idx[a]].key() != items[idx[b]].key());
            }
        }
        let sorted = sort_by_key(out);
        proof {
            sorted@.to_multiset_ensures();
            out@.to_multiset_ensures();
            assert forall|k: int| 0 <= k < sorted@.len() implies #[trigger] batch_entry(*self, sorted@[k], batch_id@) by {
                assert(sorted@.contains(sorted@[k]));
                assert(sorted@.to_multiset().count(sorted@[k]) > 0);
                assert(out@.contains(sorted@[k]));
                let q = choose|q: int| 0 <= q < out@.len() && out@[q] == sorted@[k];
                assert(same_item(out@[q], items[idx[q]]));
                lemma_lookup_at(items, idx[q]);
            }
            assert forall|key: Seq<char>| #[trigger] self.item(key) matches Some(it) && it.batch_id@ == batch_id@
                implies exists|j: int| 0 <= j < sorted@.len() && #[trigger] sorted@[j].item_id@ == key by {
                let j0 = key_index(items, key);
                assert(items[j0].batch_id@ == batch_id@);
                let k0 = choose|k: int| 0 <= k < idx.len() && idx[k] == j0;
                assert(same_item(out@[k0], items[j0]));
                assert(out@.contains(out@[k0]));
                assert(out@.to_multiset().count(out@[k0]) > 0);
                assert(sorted@.contains(out@[k0]));
                let p = choose|p: int| 0 <= p < sorted@.len() && sorted@[p] == out@[k0];
                assert(sorted@[p].item_id@ == key);
            }
            assert(lists_whole_batch(*self, sorted@, batch_id@));
            assert(sorted@.len() == out@.len());
            assert(self.items_view() == items);
            assert(out@.len() == items.filter(pred).len());
            assert(sorted_by_key(sorted@));
        }
        Ok(sorted)
    }

    /// The page of review batches selected by `query`, in listing order; `total`
    /// counts all of them.
    pub fn list_review_batches(&self, query: RemotePageQuery) -> (r: Result<RemotePage<RemoteReviewBatchSummary>, StoreError>)
        ensures
            r matches Ok(p) && p.total == self.review_batches_view().len()
                && p.items@ == page_of(self.review_batches_view(), query.offset as nat, query.limit as nat),
    {
        let mut all: Vec<RemoteReviewBatchSummary> = Vec::new();
        let mut i: usize = 0;
        while i < self.review_batches.len()
            invariant
                i <= self.review_batches@.len(),
                all@ == self.review_batches@.subrange(0, i as int),
            decreases self.review_batches@.len() - i,
        {
            all.push(self.review_batches[i].clone());
            i += 1;
            assert(all@ =~= self.review_batches@.subrange(0, i as int));
        }
        assert(all@ =~= self.review_batches@);
        let total = all.len();
        Ok(RemotePage::new(take_page(all, query.offset, query.limit), total))
    }

    /// The page of extraction results selected by `query`, in listing order;
    /// `total` counts all of them.
    pub fn list_extract_results(&self, query: RemotePageQuery) -> (r: Result<RemotePage<RemoteExtractResultSummary>, StoreError>)
        ensures
            r matches Ok(p) && p.total == self.extract_results_view().len()
                && p.items@ == page_of(self.extract_results_view(), query.offset as nat, query.limit as nat),
    {
        let mut all: Vec<RemoteExtractResultSummary> = Vec::new();
        let mut i: usize = 0;
        while i < self.extract_results.len()
            invariant
                i <= self.extract_results@.len(),
                all@ == self.extract_results@.subrange(0, i as int),
            decreases self.extract_results@.len() - i,
        {
            all.push(self.extract_results[i].clone());
            i += 1;
            assert(all@ =~= self.extract_results@.subrange(0, i as int));
        }
        assert(all@ =~= self.extract_results@);
        let total = all.len();
        Ok(RemotePage::new(take_page(all, query.offset, query.limit), total))
    }

    /// Inserts an extraction result, or replaces the one with the same id in place.
    pub fn upsert_extract_result(&mut self, summary: RemoteExtractResultSummary) -> (r: Result<RemoteExtractResultSummary, StoreError>)
        requires
            old(self).wf(),
        ensures
            final(self).wf(),
            r == Ok::<RemoteExtractResultSummary, StoreError>(summary),
            upserted(old(self).extract_results_view(), final(self).extract_results_view(), summary),
            has_key(old(self).extract_results_view(), summary.result_id@) ==> final(self).extract_results_view()
                == old(self).extract_results_view().update(key_index(old(self).extract_results_view(), summary.result_id@), summary),
            !has_key(old(self).extract_results_view(), summary.result_id@) ==> final(self).extract_results_view()
                == old(self).extract_results_view().push(summary),
            final(self).jobs_view() == old(self).jobs_view(),
            final(self).results_view() == old(self).results_view(),
            final(self).events_view() == old(self).events_view(),
            final(self).idem_view() == old(self).idem_view(),
            final(self).uploads_view() == old(self).uploads_view(),
            final(self).assets_view() == old(self).assets_view(),
            final(self).dead_letters_view() == old(self).dead_letters_view(),
            final(self).review_batches_view() == old(self).review_batches_view(),
            final(self).batches_view() == old(self).batches_view(),
            final(self).items_view() == old(self).items_view(),
            final(self).annotations_view() == old(self).annotations_view(),
            final(self).next_id_view() == old(self).next_id_view(),
    {
        let _ = upsert(&mut self.extract_results, summary.clone());
        Ok(summary)
    }

    /// Puts a batch back as it was persisted elsewhere, with its listing entry
    /// (replacing the first entry with the same id, or appended).
    pub fn import_batch(&mut self, batch: RemoteBatch) -> (r: Result<(), StoreError>)
        requires
            old(self).wf(),
        ensures
            final(self).wf(),
            r is Ok,
            upserted(old(self).batches_view(), final(self).batches_view(), batch),
            has_key(old(self).review_batches_view(), batch.batch_id@) ==> final(self).review_batches_view()
                == old(self).review_batches_view().update(first_key_index(old(self).review_batches_view(), batch.batch_id@), batch_summary(batch)),
            !has_key(old(self).review_batches_view(), batch.batch_id@) ==> final(self).review_batches_view()
                == old(self).review_batches_view().push(batch_summary(batch)),
            final(self).jobs_view() == old(self).jobs_view(),
            final(self).items_view() == old(self).items_view(),
            final(self).results_view() == old(self).results_view(),
            final(self).assets_view() == old(self).assets_view(),
            final(self).uploads_view() == old(self).uploads_view(),
            final(self).annotations_view() == old(self).annotations_view(),
            final(self).extract_results_view() == old(self).extract_results_view(),
            final(self).events_view() == old(self).events_view(),
            final(self).idem_view() == old(self).idem_view(),
    {
        let summary = RemoteReviewBatchSummary {
            batch_id: batch.batch_id.clone(),
            name: batch.name.clone(),
            source: batch.source,
            item_count: batch.item_count,
            updated_at: batch.updated_at,
            cover_asset: clone_opt_asset(&batch.cover_asset),
        };
        match find_first_key(&self.review_batches, &batch.batch_id) {
            Some(i) => self.review_batches.set(i, summary),
            None => self.review_batches.push(summary),
        }
        let _ = upsert(&mut self.batches, batch);
        Ok(())
    }

    /// Puts a review item back as it was persisted elsewhere.
    pub fn import_review_item(&mut self, item: RemoteReviewItem) -> (r: Result<(), StoreError>)
        requires
            old(self).wf(),
        ensures
            final(self).wf(),
            r is Ok,
            upserted(old(self).items_view(), final(self).items_view(), item),
            final(self).jobs_view() == old(self).jobs_view(),
            final(self).results_view() == old(self).results_view(),
            final(self).events_view() == old(self).events_view(),
            final(self).idem_view() == old(self).idem_view(),
            final(self).uploads_view() == old(self).uploads_view(),
            final(self).assets_view() == old(self).assets_view(),
            final(self).dead_letters_view() == old(self).dead_letters_view(),
            final(self).review_batches_view() == old(self).review_batches_view(),
            final(self).batches_view() == old(self).batches_view(),
            final(self).annotations_view() == old(self).annotations_view(),
            final(self).extract_results_view() == old(self).extract_results_view(),
            final(self).next_id_view() == old(self).next_id_view(),
    {
        let _ = upsert(&mut self.review_items, item);
        Ok(())
    }

    /// Puts an annotation back as it was persisted elsewhere.
    pub fn import_annotation(&mut self, annotation: RemoteAnnotation) -> (r: Result<(), StoreError>)
        requires
            old(self).wf(),
        ensures
            final(self).wf(),
            r is Ok,
            upserted(old(self).annotations_view(), final(self).annotations_view(), annotation),
            final(self).jobs_view() == old(self).jobs_view(),
            final(self).results_view() == old(self).results_view(),
            final(self).events_view() == old(self).events_view(),
            final(self).idem_view() == old(self).idem_view(),
            final(self).uploads_view() == old(self).uploads_view(),
            final(self).assets_view() == old(self).assets_view(),
            final(self).dead_letters_view() == old(self).dead_letters_view(),
            final(self).review_batches_view() == old(self).review_batches_view(),
            final(self).batches_view() == old(self).batches_view(),
            final(self).items_view() == old(self).items_view(),
            final(self).extract_results_view() == old(self).extract_results_view(),
            final(self).next_id_view() == old(self).next_id_view(),
    {
        let _ = upsert(&mut self.annotations, annotation);
        Ok(())
    }

    /// Puts an extraction result back as it was persisted elsewhere.
    pub fn import_extract_result(&mut self, summary: RemoteExtractResultSummary) -> (r: Result<(), StoreError>)
        requires
            old(self).wf(),
        ensures
            final(self).wf(),
            r is Ok,
            upserted(old(self).extract_results_view(), final(self).extract_results_view(), summary),
            final(self).jobs_view() == old(self).jobs_view(),
            final(self).results_view() == old(self).results_view(),
            final(self).events_view() == old(self).events_view(),
            final(self).idem_view() == old(self).idem_view(),
            final(self).uploads_view() == old(self).uploads_view(),
            final(self).assets_view() == old(self).assets_view(),
            final(self).dead_letters_view() == old(self).dead_letters_view(),
            final(self).review_batches_view() == old(self).review_batches_view(),
            final(self).batches_view() == old(self).batches_view(),
            final(self).items_view() == old(self).items_view(),
            final(self).annotations_view() == old(self).annotations_view(),
            final(self).next_id_view() == old(self).next_id_view(),
    {
        let _ = self.upsert_extract_result(summary);
        Ok(())
    }

    /// Restores an upload record under its id.
    pub fn import_upload(&mut self, upload_id: String, record: UploadRecord) -> (r: Result<(), StoreError>)
        requires
            old(self).wf(),
        ensures
            final(self).wf(),
            r is Ok,
            upserted(old(self).uploads_view(), final(self).uploads_view(), UploadEntry { upload_id, record }),
            final(self).jobs_view() == old(self).jobs_view(),
            final(self).results_view() == old(self).results_view(),
            final(self).events_view() == old(self).events_view(),
            final(self).idem_view() == old(self).idem_view(),
            final(self).assets_view() == old(self).assets_view(),
            final(self).dead_letters_view() == old(self).dead_letters_view(),
            final(self).review_batches_view() == old(self).review_batches_view(),
            final(self).batches_view() == old(self).batches_view(),
            final(self).items_view() == old(self).items_view(),
            final(self).annotations_view() == old(self).annotations_view(),
            final(self).extract_results_view() == old(self).extract_results_view(),
            final(self).next_id_view() == old(self).next_id_view(),
    {
        let _ = upsert(&mut self.uploads, UploadEntry { upload_id, record });
        Ok(())
    }

    /// Restores the job recorded for a client request in a workspace.
    pub fn import_idempotency(&mut self, workspace_id: String, client_request_id: String, job_id: String) -> (r: Result<(), StoreError>)
        requires
            old(self).wf(),
        ensures
            final(self).wf(),
            r is Ok,
            idem_lookup(final(self).idem_view(), workspace_id@, client_request_id@) == Some(job_id@),
            forall|w: Seq<char>, c: Seq<char>| !(w == workspace_id@ && c == client_request_id@) ==>
                #[trigger] idem_lookup(final(self).idem_view(), w, c) == idem_lookup(old(self).idem_view(), w, c),
            final(self).jobs_view() == old(self).jobs_view(),
            final(self).results_view() == old(self).results_view(),
            final(self).assets_view() == old(self).assets_view(),
            final(self).uploads_view() == old(self).uploads_view(),
            final(self).items_view() == old(self).items_view(),
            final(self).annotations_view() == old(self).annotations_view(),
            final(self).extract_results_view() == old(self).extract_results_view(),
            final(self).events_view() == old(self).events_view(),
            final(self).batches_view() == old(self).batches_view(),
            final(self).review_batches_view() == old(self).review_batches_view(),
    {
        let ghost o = self.idempotency@;
        let ghost jv = job_id@;
        match self.find_idem(&workspace_id, &client_request_id) {
            Some(i) => {
                let entry = IdempotencyEntry { workspace_id, client_request_id, job_id };
                let ghost e = entry;
                self.idempotency.set(i, entry);
                proof {
                    let n = self.idempotency@;
                    assert forall|a: int, b: int| 0 <= a < n.len() && 0 <= b < n.len() && a != b implies
                        !(n[a].workspace_id@ == n[b].workspace_id@ && n[a].client_request_id@ == n[b].client_request_id@) by {
                        if a != i && b != i {
                            assert(n[a] == o[a] && n[b] == o[b]);
                        } else if a == i {
                            assert(n[b] == o[b]);
                        } else {
                            assert(n[a] == o[a]);
                        }
                    }
                    assert(n[i as int] == e);
                    assert forall|w: Seq<char>, c: Seq<char>| #[trigger] idem_lookup(n, w, c) == (if w == e.workspace_id@ && c == e.client_request_id@ { Some(jv) } else { idem_lookup(o, w, c) }) by {
                        if w == e.workspace_id@ && c == e.client_request_id@ {
                            assert(n[i as int].workspace_id@ == w && n[i as int].client_request_id@ == c);
                        } else {
                            if exists|q: int| 0 <= q < o.len() && o[q].workspace_id@ == w && o[q].client_request_id@ == c {
                                let q = choose|q: int| 0 <= q < o.len() && o[q].workspace_id@ == w && o[q].client_request_id@ == c;
                                assert(q != i);
                                assert(n[q] == o[q]);
                            }
                            if exists|q: int| 0 <= q < n.len() && n[q].workspace_id@ == w && n[q].client_request_id@ == c {
                                let q = choose|q: int| 0 <= q < n.len() && n[q].workspace_id@ == w && n[q].client_request_id@ == c;
                                assert(q != i);
                                assert(n[q] == o[q]);
                            }
                        }
                    }
                }
            },
            None => {
                let entry = IdempotencyEntry { workspace_id, client_request_id, job_id };
                let ghost e = entry;
                self.idempotency.push(entry);
                proof {
                    let n = self.idempotency@;
                    let last = o.len() as int;
                    assert forall|a: int, b: int| 0 <= a < n.len() && 0 <= b < n.len() && a != b implies
                        !(n[a].workspace_id@ == n[b].workspace_id@ && n[a].client_request_id@ == n[b].client_request_id@) by {
                        if a != last && b != last {
                            assert(n[a] == o[a] && n[b] == o[b]);
                        } else if a == last {
                            assert(n[b] == o[b]);
                        } else {
                            assert(n[a] == o[a]);
                        }
                    }
                    assert(n[last] == e);
                    assert forall|w: Seq<char>, c: Seq<char>| #[trigger] idem_lookup(n, w, c) == (if w == e.workspace_id@ && c == e.client_request_id@ { Some(jv) } else { idem_lookup(o, w, c) }) by {
                        if w == e.workspace_id@ && c == e.client_request_id@ {
                            assert(n[last].workspace_id@ == w && n[last].client_request_id@ == c);
                        } else {
                            if exists|q: int| 0 <= q < o.len() && o[q].workspace_id@ == w && o[q].client_request_id@ == c {
                                let q = choose|q: int| 0 <= q < o.len() && o[q].workspace_id@ == w && o[q].client_request_id@ == c;
                                assert(n[q] == o[q]);
                            }
                            if exists|q: int| 0 <= q < n.len() && n[q].workspace_id@ == w && n[q].client_request_id@ == c {
                                let q = choose|q: int| 0 <= q < n.len() && n[q].workspace_id@ == w && n[q].client_request_id@ == c;
                                assert(q != last);
                                assert(n[q] == o[q]);
                            }
                        }
                    }
                }
            },
        }
        Ok(())
    }

    /// Restores a store from persisted rows: jobs, results, assets, uploads, review items,
    /// annotations and extraction results each replace the record with their key (the
    /// last row with a key wins); events are appended to their job's log in order;
    /// client-request ids and batches are restored one by one; the id counter restarts at
    /// the number of jobs, uploads and assets plus 100.
    pub fn load_into_memory(&mut self, snapshot: StoreSnapshot) -> (r: Result<(), StoreError>)
        requires
            old(self).wf(),
            old(self).jobs_view().len() + snapshot.jobs@.len() + old(self).uploads_view().len() + snapshot.uploads@.len()
                + old(self).assets_view().len() + snapshot.assets@.len() + 100 <= u64::MAX,
        ensures
            final(self).wf(),
            r is Ok,
            forall|k: Seq<char>| #[trigger] lookup(final(self).jobs_view(), k) == overlay_lookup(old(self).jobs_view(), snapshot.jobs@, k),
            forall|k: Seq<char>| #[trigger] lookup(final(self).results_view(), k) == overlay_lookup(old(self).results_view(), snapshot.results@, k),
            forall|k: Seq<char>| #[trigger] lookup(final(self).assets_view(), k) == overlay_lookup(old(self).assets_view(), snapshot.assets@, k),
            forall|k: Seq<char>| #[trigger] lookup(final(self).uploads_view(), k) == overlay_lookup(old(self).uploads_view(), snapshot.uploads@, k),
            forall|k: Seq<char>| #[trigger] lookup(final(self).items_view(), k) == overlay_lookup(old(self).items_view(), snapshot.review_items@, k),
            forall|k: Seq<char>| #[trigger] lookup(final(self).annotations_view(), k) == overlay_lookup(old(self).annotations_view(), snapshot.annotations@, k),
            forall|k: Seq<char>| #[trigger] lookup(final(self).extract_results_view(), k) == overlay_lookup(old(self).extract_results_view(), snapshot.extract_results@, k),
            forall|k: Seq<char>| #[trigger] events_of(final(self).events_view(), k) == events_of(old(self).events_view(), k)
                + snapshot.events@.filter(|e: RemoteJobEvent| e.job_id@ == k),
            forall|w: Seq<char>, c: Seq<char>| #[trigger] idem_lookup(final(self).idem_view(), w, c) == idem_overlay(
                old(self).idem_view(), snapshot.idempotency@, w, c),
            forall|k: Seq<char>| #[trigger] lookup(final(self).batches_view(), k) == overlay_lookup(old(self).batches_view(), snapshot.batches@, k),
            final(self).review_batches_view() == review_batches_after(old(self).review_batches_view(), snapshot.batches@),
            final(self).next_id_view() == final(self).jobs_view().len() + final(self).uploads_view().len()
                + final(self).assets_view().len() + 100,
    {
        let StoreSnapshot { jobs, results, events, uploads, assets, idempotency, batches, review_items, annotations, extract_results } = snapshot;
        let ghost ev = events@;
        upsert_all(&mut self.jobs, jobs);
        upsert_all(&mut self.results, results);
        upsert_all(&mut self.assets, assets);
        upsert_all(&mut self.uploads, uploads);
        upsert_all(&mut self.review_items, review_items);
        upsert_all(&mut self.annotations, annotations);
        upsert_all(&mut self.extract_results, extract_results);
        let ghost mid = self.events@;
        let ghost pre = *self;
        assert(pre.wf());
        let mut i: usize = 0;
        while i < events.len()
            invariant
                i <= ev.len(),
                ev == events@,
                unique_keys(self.events@),
                self.jobs == pre.jobs && self.results == pre.results && self.idempotency == pre.idempotency,
                self.uploads == pre.uploads && self.assets == pre.assets && self.dead_letters == pre.dead_letters,
                self.review_batches == pre.review_batches && self.batches == pre.batches,
                self.review_items == pre.review_items && self.annotations == pre.annotations,
                self.extract_results == pre.extract_results && self.next_id == pre.next_id,
                pre.wf(),
                forall|k: Seq<char>| #[trigger] events_of(self.events@, k) == events_of(mid, k)
                    + ev.subrange(0, i as int).filter(|e: RemoteJobEvent| e.job_id@ == k),
            decreases ev.len() - i,
        {
            let e = events[i].clone();
            let id = e.job_id.clone();
            let ghost eg = e;
            let ghost before = self.events@;
            self.push_event(&id, e);
            proof {
                let pre = ev.subrange(0, i as int);
                let post = ev.subrange(0, i + 1);
                assert(post.drop_last() =~= pre);
                assert(post.last() == eg);
                reveal_with_fuel(Seq::filter, 1);
                assert forall|k: Seq<char>| #[trigger] events_of(self.events@, k) == events_of(mid, k)
                    + post.filter(|e: RemoteJobEvent| e.job_id@ == k) by {
                    if k == eg.job_id@ {
                        assert(post.filter(|e: RemoteJobEvent| e.job_id@ == k) == pre.filter(|e: RemoteJobEvent| e.job_id@ == k).push(eg));
                        assert(events_of(self.events@, k) == events_of(before, k).push(eg));
                    } else {
                        assert(post.filter(|e: RemoteJobEvent| e.job_id@ == k) == pre.filter(|e: RemoteJobEvent| e.job_id@ == k));
                    }
                }
            }
            i += 1;
        }
        proof {
            assert(ev.subrange(0, i as int) =~= ev);
        }
        let ghost fixed = *self;
        proof {
            assert(fixed.idem_view() == old(self).idem_view());
            assert(fixed.batches_view() == old(self).batches_view());
            assert(fixed.review_batches_view() == old(self).review_batches_view());
        }
        let ghost idems = idempotency@;
        let mut j: usize = 0;
        while j < idempotency.len()
            invariant
                j <= idempotency@.len(),
                idems == idempotency@,
                self.wf(),
                self.jobs_view() == fixed.jobs_view(),
                self.results_view() == fixed.results_view(),
                self.assets_view() == fixed.assets_view(),
                self.uploads_view() == fixed.uploads_view(),
                self.items_view() == fixed.items_view(),
                self.annotations_view() == fixed.annotations_view(),
                self.extract_results_view() == fixed.extract_results_view(),
                self.events_view() == fixed.events_view(),
                self.batches_view() == fixed.batches_view(),
                self.review_batches_view() == fixed.review_batches_view(),
                forall|w: Seq<char>, c: Seq<char>| #[trigger] idem_lookup(self.idem_view(), w, c) == idem_overlay(
                    fixed.idem_view(), idems.subrange(0, j as int), w, c),
            decreases idempotency@.len() - j,
        {
            let (w, c, jb) = (&idempotency[j].0, &idempotency[j].1, &idempotency[j].2);
            let ghost before = self.idem_view();
            self.import_idempotency(w.clone(), c.clone(), jb.clone());
            proof {
                let pre = idems.subrange(0, j as int);
                let post = idems.subrange(0, j + 1);
                assert(post.drop_last() =~= pre);
                assert(post.last() == idems[j as int]);
            }
            j += 1;
        }
        proof {
            assert(idems.subrange(0, j as int) =~= idems);
        }
        let ghost bs = batches@;
        let ghost fixed2 = *self;
        let mut b: usize = 0;
        while b < batches.len()
            invariant
                b <= batches@.len(),
                bs == batches@,
                self.wf(),
                self.jobs_view() == fixed.jobs_view(),
                self.results_view() == fixed.results_view(),
                self.assets_view() == fixed.assets_view(),
                self.uploads_view() == fixed.uploads_view(),
                self.items_view() == fixed.items_view(),
                self.annotations_view() == fixed.annotations_view(),
                self.extract_results_view() == fixed.extract_results_view(),
                self.events_view() == fixed.events_view(),
                self.idem_view() == fixed2.idem_view(),
                forall|k: Seq<char>| #[trigger] lookup(self.batches_view(), k) == overlay_lookup(fixed.batches_view(), bs.subrange(0, b as int), k),
                self.review_batches_view() == review_batches_after(fixed.review_batches_view(), bs.subrange(0, b as int)),
            decreases batches@.len() - b,
        {
            let batch = batches[b].clone();
            let ghost bg = batch;
            let ghost before = self.batches_view();
            self.import_batch(batch);
            proof {
                let pre = bs.subrange(0, b as int);
                let post = bs.subrange(0, b + 1);
                assert(post.drop_last() =~= pre);
                assert(post.last() == bg);
                assert forall|k: Seq<char>| #[trigger] lookup(self.batches_view(), k) == overlay_lookup(fixed.batches_view(), post, k) by {
                    if k == bg.key() {
                        assert(last_by_key(post, k) == Some(bg));
                    } else {
                        assert(last_by_key(post, k) == last_by_key(pre, k));
                        assert(lookup(self.batches_view(), k) == lookup(before, k));
                    }
                }
            }
            b += 1;
        }
        proof {
            assert(bs.subrange(0, b as int) =~= bs);
        }
        self.next_id = self.jobs.len() as u64 + self.uploads.len() as u64 + self.assets.len() as u64 + 100;
        Ok(())
    }

    /// Ids of the jobs still queued, taken from the listing of the 10 000 most
    /// recently updated jobs, in listing order (used to refill the queue on start).
    pub fn list_queued_job_ids(&self) -> (r: Result<Vec<String>, StoreError>)
        requires
            self.wf(),
        ensures
            r matches Ok(ids) && queued_listing(*self, ids@.map_values(|s: String| s@)),
            r matches Ok(ids) && forall|k: int| 0 <= k < ids@.len() ==> (self.job(#[trigger] ids@[k]@) matches Some(rec)
                && rec.status.phase == RemoteJobPhase::Queued),
    {
        let jobs = match self.list_jobs(10_000) {
            Ok(v) => v,
            Err(e) => return Err(e),
        };
        let ghost all = choose|all: Seq<RemoteJobSummary>| {
            &&& sorted_desc_updated(all)
            &&& all.to_multiset() == self.jobs_view().map_values(|j: RemoteJobRecord| summary_of(j.status)).to_multiset()
            &&& jobs@ == page_of(all, 0, 10_000)
        };
        let mut ids: Vec<String> = Vec::new();
        let mut i: usize = 0;
        while i < jobs.len()
            invariant
                i <= jobs@.len(),
                self.wf(),
                jobs@ == page_of(all, 0, 10_000),
                sorted_desc_updated(all),
                all.to_multiset() == self.jobs_view().map_values(|j: RemoteJobRecord| summary_of(j.status)).to_multiset(),
                ids@.map_values(|s: String| s@) == queued_ids(jobs@.subrange(0, i as int)),
                forall|k: int| 0 <= k < ids@.len() ==> (self.job(#[trigger] ids@[k]@) matches Some(rec)
                    && rec.status.phase == RemoteJobPhase::Queued),
            decreases jobs@.len() - i,
        {
            proof {
                assert(jobs@.subrange(0, i + 1).drop_last() =~= jobs@.subrange(0, i as int));
            }
            if jobs[i].phase == RemoteJobPhase::Queued {
                proof {
                    let x = jobs@[i as int];
                    assert(all.contains(x)) by {
                        let start = 0int;
                        assert(x == all[i as int]);
                    }
                    all.to_multiset_ensures();
                    let src = self.jobs_view().map_values(|j: RemoteJobRecord| summary_of(j.status));
                    src.to_multiset_ensures();
                    assert(src.to_multiset().count(x) > 0);
                    assert(src.contains(x));
                    let m = choose|m: int| 0 <= m < src.len() && src[m] == x;
                    assert(src[m] == summary_of(self.jobs_view()[m].status));
                    lemma_lookup_at(self.jobs_view(), m);
                }
                let ghost before = ids@;
                ids.push(jobs[i].job_id.clone());
                proof {
                    assert forall|k: int| 0 <= k < ids@.len() implies (self.job(#[trigger] ids@[k]@) matches Some(rec)
                        && rec.status.phase == RemoteJobPhase::Queued) by {
                        if k < before.len() {
                            assert(ids@[k] == before[k]);
                        }
                    }
                }
            }
            proof {
                assert(ids@.map_values(|s: String| s@) =~= queued_ids(jobs@.subrange(0, i + 1)));
            }
            i += 1;
        }
        proof {
            assert(jobs@.subrange(0, jobs@.len() as int) =~= jobs@);
        }
        Ok(ids)
    }
}

/// The job that client request `crid` of workspace `ws` names once the entries `snap`,
/// `(workspace, client request id, job id)`, are imported in order over `old`: the last
/// entry for that pair, else what `old` holds.
pub open spec fn idem_overlay(old: Seq<IdempotencyEntry>, snap: Seq<(String, String, String)>, ws: Seq<char>, crid: Seq<char>) -> Option<Seq<char>>
    decreases snap.len(),
{
    if snap.len() == 0 {
        idem_lookup(old, ws, crid)
    } else if snap.last().0@ == ws && snap.last().1@ == crid {
        Some(snap.last().2@)
    } else {
        idem_overlay(old, snap.drop_last(), ws, crid)
    }
}

/// The listing of review batches after importing the batches `bs` in order: each replaces
/// the first entry with its id, or is appended.
pub open spec fn review_batches_after(old: Seq<RemoteReviewBatchSummary>, bs: Seq<RemoteBatch>) -> Seq<RemoteReviewBatchSummary>
    decreases bs.len(),
{
    if bs.len() == 0 {
        old
    } else {
        let prev = review_batches_after(old, bs.drop_last());
        let b = bs.last();
        if has_key(prev, b.batch_id@) {
            prev.update(first_key_index(prev, b.batch_id@), batch_summary(b))
        } else {
            prev.push(batch_summary(b))
        }
    }
}

/// The ids of the queued jobs among the summaries `s`, in order.
pub open spec fn queued_ids(s: Seq<RemoteJobSummary>) -> Seq<Seq<char>>
    decreases s.len(),
{
    if s.len() == 0 {
        Seq::empty()
    } else {
        let rest = queued_ids(s.drop_last());
        if s.last().phase == RemoteJobPhase::Queued {
            rest.push(s.last().job_id@)
        } else {
            rest
        }
    }
}

/// `ids` are the queued jobs among the 10 000 most recently updated jobs of `store`, in
/// the order of a listing by update time, newest first (jobs updated at the same time in
/// any order).
pub open spec fn queued_listing(store: InMemoryJobStore, ids: Seq<Seq<char>>) -> bool {
    exists|all: Seq<RemoteJobSummary>| {
        &&& sorted_desc_updated(all)
        &&& #[trigger] all.to_multiset() == store.jobs_view().map_values(|j: RemoteJobRecord| summary_of(j.status)).to_multiset()
        &&& ids == queued_ids(page_of(all, 0, 10_000))
    }
}

/// Creating a job twice with the same client request id (and workspace) gives the
/// same job both times, and the second creation changes nothing.
pub proof fn law_create_is_idempotent(
    s0: InMemoryJobStore,
    request: RemoteJobRequest,
    t1: u64,
    s1: InMemoryJobStore,
    r1: Result<RemoteJobStatus, StoreError>,
    t2: u64,
    s2: InMemoryJobStore,
    r2: Result<RemoteJobStatus, StoreError>,
)
    requires
        s0.wf(),
        request.client_request_id is Some,
        create_job_post(s0, request, t1, s1, r1),
        create_job_post(s1, request, t2, s2, r2),
        r1 is Ok,
    ensures
        r2 == r1,
        s2 == s1,
{
    let crid = request.client_request_id.unwrap();
    let ws = workspace_of(request);
    if idem_lookup(s0.idem_view(), ws, crid@) is Some {
        let existing = idem_lookup(s0.idem_view(), ws, crid@).unwrap();
        assert(s1 == s0);
    } else {
        let id = numbered_id("job"@, (s0.next_id_view() + 1) as nat);
        assert(idem_lookup(s1.idem_view(), ws, crid@) == Some(id));
    }
}

/// A job that creation reports is found by its id afterwards, with the reported status.
pub proof fn law_created_job_is_found(
    s0: InMemoryJobStore,
    request: RemoteJobRequest,
    now: u64,
    s1: InMemoryJobStore,
    r: Result<RemoteJobStatus, StoreError>,
)
    requires
        s0.wf(),
        create_job_post(s0, request, now, s1, r),
        r is Ok,
    ensures
        s1.job(r->Ok_0.job_id@) matches Some(rec) && rec.status == r->Ok_0,
{
    match request.client_request_id {
        Some(crid) => {
            if idem_lookup(s0.idem_view(), workspace_of(request), crid@) is Some {
                let existing = idem_lookup(s0.idem_view(), workspace_of(request), crid@).unwrap();
                let rec = s0.job(existing).unwrap();
                let i = key_index(s0.jobs_view(), existing);
                lemma_lookup_at(s0.jobs_view(), i);
            }
        },
        None => {},
    }
}

} // verus!
