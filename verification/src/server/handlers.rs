//! The HTTP routes of the back end, without the transport: each handler checks the
//! caller, then reads or changes the store and the queue and says what to answer.
use vstd::prelude::*;

use crate::clock::now_unix;
use crate::server::auth::{authorize, bearer_in, enforce_workspace, refused, workspace_allowed, workspace_in, AuthContext};
use crate::server::config::{value_of, ServerConfig};
use crate::server::error::{ApiError, RemoteApiErrorCode};
use crate::server::api::request_id_from_headers;
use crate::server::models::{
    CreateRemoteBatchRequest, RemoteBatch, RemoteUploadCompleteRequest, RemoteUploadCompleteResponse,
    RemoteAnnotation, RemoteJobEvent, RemoteJobPhase, RemoteJobRequest, RemoteJobResult, RemoteJobSource,
    RemoteJobStatus, RemotePage, RemotePageQuery, RemoteReviewBatchSummary, RemoteUploadInitRequest,
    RemoteUploadSession, REMOTE_SCHEMA_VERSION,
};
use crate::server::object_store::{checksum_of, sha256_hex};
use crate::server::worker::{is_terminal, phase_is_terminal};
use crate::sorting::{page_of, take_page};
use crate::server::queue::InMemoryQueue;
use crate::server::rate_limit::{rate_key, RateLimiter};
use crate::server::storage::{
    checksums_agree, create_job_post, events_after, events_of, numbered_id, queued_listing, same_result, InMemoryJobStore,
    RemoteJobRecord, UploadRecord,
};
use crate::keyed::{lookup, upserted};
use crate::text::{decimal, push_decimal, push_str, string_from_chars, string_of, trim};

verus! {

/// When a request is handled: the wall clock in Unix seconds, for what the store
/// records, and the rate limiter's clock in nanoseconds.
#[derive(Debug, Clone, Copy)]
pub struct Moment {
    pub unix: u64,
    pub tick: u64,
}

/// What the routes share: configuration, metadata store, job queue and rate limiter.
pub struct ApiCore {
    pub config: ServerConfig,
    pub store: InMemoryJobStore,
    pub queue: InMemoryQueue,
    pub limiter: RateLimiter,
}

/// The limiter lets the request through.
pub open spec fn admitted(core: ApiCore, headers: Seq<(String, String)>, tick: u64) -> bool {
    core.limiter.admits(rate_key(headers), tick)
}

/// The request gets past the limiter and the token check.
pub open spec fn allowed(core: ApiCore, headers: Seq<(String, String)>, tick: u64) -> bool {
    admitted(core, headers, tick) && !refused(core.config.auth_token, headers)
}

/// The workspace that the caller acts in.
pub open spec fn caller_workspace(core: ApiCore, headers: Seq<(String, String)>) -> Seq<char> {
    workspace_in(headers, core.config.default_workspace@)
}

/// The error that a request refused by the limiter or the token check is answered with:
/// 429 when the limiter refuses, else 401.
pub open spec fn access_error(core: ApiCore, headers: Seq<(String, String)>, tick: u64, e: ApiError) -> bool {
    &&& if !admitted(core, headers, tick) {
        e.status == 429 && e.body.code == RemoteApiErrorCode::RateLimited
    } else {
        e.status == 401 && e.body.code == RemoteApiErrorCode::Unauthorized
    }
    &&& value_of(headers, "x-request-id"@) matches Some(v) ==> e.body.request_id matches Some(rid) && rid@ == v
}

/// `unsupported schema <v>`.
pub open spec fn unsupported_schema_message(v: u32) -> Seq<char> {
    "unsupported schema "@ + decimal(v as nat)
}

/// The request as it is stored: as sent, with the caller's workspace when it names none.
pub open spec fn submitted_request(request: RemoteJobRequest, ws: Seq<char>, stored: RemoteJobRequest) -> bool {
    &&& stored.workspace_id matches Some(w) && w@ == (match request.workspace_id {
        Some(x) => x@,
        None => ws,
    })
    &&& RemoteJobRequest { workspace_id: request.workspace_id, ..stored } == request
}

/// The workspace a submitted job is filed under: the one it names, else the caller's.
pub open spec fn filed_workspace(request: RemoteJobRequest, ws: Seq<char>) -> Seq<char> {
    match request.workspace_id {
        Some(x) => x@,
        None => ws,
    }
}

/// The request's idempotency key, in workspace `ws`, points at a job that the store no
/// longer has.
pub open spec fn dangling_key(store: InMemoryJobStore, request: RemoteJobRequest, ws: Seq<char>) -> bool {
    match request.client_request_id {
        Some(crid) => match crate::server::storage::idem_lookup(store.idem_view(), ws, crid@) {
            Some(existing) => store.job(existing) is None,
            None => false,
        },
        None => false,
    }
}

impl ApiCore {
    pub open spec fn wf(&self) -> bool {
        &&& self.store.wf()
        &&& self.queue.wf_view()
        &&& self.limiter.wf()
    }

    /// A core with an empty store and queue, limited as `config` says.
    pub fn in_memory(config: ServerConfig) -> (r: Self)
        ensures
            r.wf(),
            r.config == config,
            r.store.jobs_view().len() == 0,
            r.store.next_id_view() == 0,
            r.queue.pending_view().len() == 0,
            r.queue.inflight_view().len() == 0,
            r.limiter.buckets_view().len() == 0,
            r.limiter.capacity_spec() == if config.rate_limit_per_minute < 1 { 1 } else { config.rate_limit_per_minute as nat },
    {
        let limiter = RateLimiter::new(config.rate_limit_per_minute);
        ApiCore { config, store: InMemoryJobStore::new(), queue: InMemoryQueue::new(), limiter }
    }

    /// The wall clock and the limiter's clock, now.
    pub fn moment(&self) -> (m: Moment) {
        Moment { unix: now_unix(), tick: self.limiter.clock() }
    }

    /// Charges the caller's rate limit, then checks its token: 429 when the limiter
    /// refuses, 401 when the token is wrong, else who is calling and in which workspace.
    pub fn check_access_at(&mut self, headers: &Vec<(String, String)>, tick: u64) -> (r: Result<AuthContext, ApiError>)
        requires
            old(self).wf(),
        ensures
            final(self).wf(),
            final(self).config == old(self).config,
            final(self).store == old(self).store,
            final(self).queue == old(self).queue,
            final(self).limiter.capacity_spec() == old(self).limiter.capacity_spec(),
            old(self).limiter.charged_to(rate_key(headers@), tick, final(self).limiter),
            r is Ok <==> allowed(*old(self), headers@, tick),
            r matches Err(e) ==> access_error(*old(self), headers@, tick, e),
            r matches Ok(ctx) ==> {
                &&& ctx.workspace_id@ == caller_workspace(*old(self), headers@)
                &&& ctx.token_present == bearer_in(headers@) is Some
            },
    {
        let request_id = request_id_from_headers(headers);
        if !self.limiter.check_headers_at(headers, tick) {
            return Err(ApiError::rate_limited(request_id));
        }
        match authorize(&self.config, headers) {
            Ok(ctx) => Ok(ctx),
            Err(_) => Err(ApiError::unauthorized(request_id)),
        }
    }

    /// `POST /v1/jobs`: creates the job (or finds the one its idempotency key names) in
    /// the caller's workspace and queues it as attempt 0.
    pub fn submit_job_at(&mut self, headers: &Vec<(String, String)>, request: RemoteJobRequest, at: Moment) -> (r: Result<RemoteJobStatus, ApiError>)
        requires
            old(self).wf(),
            old(self).store.next_id_view() < u64::MAX,
        ensures
            final(self).wf(),
            final(self).config == old(self).config,
            !allowed(*old(self), headers@, at.tick) ==> (r matches Err(e) && access_error(*old(self), headers@, at.tick, e)),
            allowed(*old(self), headers@, at.tick) && request.schema_version > REMOTE_SCHEMA_VERSION ==> (r matches Err(e)
                && e.status == 400 && e.body.code == RemoteApiErrorCode::UnsupportedSchema
                && e.body.message@ == unsupported_schema_message(request.schema_version)),
            allowed(*old(self), headers@, at.tick) && request.schema_version <= REMOTE_SCHEMA_VERSION
                && !workspace_allowed(caller_workspace(*old(self), headers@), match request.workspace_id {
                    Some(w) => Some(w@),
                    None => None,
                }) ==> (r matches Err(e) && e.status == 403),
            r is Err ==> final(self).store == old(self).store && final(self).queue == old(self).queue,
            allowed(*old(self), headers@, at.tick) && request.schema_version <= REMOTE_SCHEMA_VERSION
                && workspace_allowed(caller_workspace(*old(self), headers@), match request.workspace_id {
                    Some(w) => Some(w@),
                    None => None,
                }) ==> {
                &&& (r is Ok <==> !dangling_key(old(self).store, request, filed_workspace(request, caller_workspace(*old(self), headers@))))
                &&& r matches Ok(st) ==> {
                    &&& exists|q: RemoteJobRequest| #[trigger] submitted_request(request, caller_workspace(*old(self), headers@), q)
                        && create_job_post(old(self).store, q, at.unix, final(self).store, Ok(st))
                    &&& final(self).queue.pending_view().drop_last() == old(self).queue.pending_view()
                    &&& final(self).queue.pending_view().last().job_id@ == st.job_id@
                    &&& final(self).queue.pending_view().last().attempt == 0
                    &&& final(self).queue.inflight_view() == old(self).queue.inflight_view()
                }
            },
    {
        let ghost old_core = *self;
        let request_id = request_id_from_headers(headers);
        let auth = self.check_access_at(headers, at.tick)?;
        let mut request = request;
        if request.schema_version > REMOTE_SCHEMA_VERSION {
            let mut m: Vec<char> = Vec::new();
            push_str(&mut m, "unsupported schema ");
            push_decimal(&mut m, request.schema_version as u64);
            proof {
                reveal_strlit("unsupported schema ");
            }
            return Err(ApiError::other(400, RemoteApiErrorCode::UnsupportedSchema, string_from_chars(&m), request_id));
        }
        let ghost sent = request;
        match &request.workspace_id {
            Some(w) => {
                enforce_workspace(auth.workspace_id.as_str(), Some(w.as_str()), request_id.clone())?;
            },
            None => {
                request.workspace_id = Some(auth.workspace_id.clone());
            },
        }
        assert(submitted_request(sent, caller_workspace(old_core, headers@), request));
        let ghost q = request;
        let ghost store_before = self.store;
        let status = match self.store.create_job_at(request, at.unix) {
            Ok(s) => s,
            Err(e) => {
                return Err(ApiError::from_store(e, request_id));
            },
        };
        assert(create_job_post(store_before, q, at.unix, self.store, Ok(status)));
        let _ = self.queue.enqueue(status.job_id.as_str(), 0);
        Ok(status)
    }

    /// The workspace that a record sent by the caller is filed under: the one it names when
    /// the caller may use it (403 otherwise), else the caller's own.
    pub fn file_in_workspace(auth: &AuthContext, named: Option<String>, request_id: String) -> (r: Result<Option<String>, ApiError>)
        ensures
            match named {
                Some(w) => if workspace_allowed(auth.workspace_id@, Some(w@)) {
                    r == Ok::<Option<String>, ApiError>(Some(w))
                } else {
                    r matches Err(e) && e.status == 403 && e.body.code == RemoteApiErrorCode::Forbidden
                        && e.body.request_id == Some(request_id)
                },
                None => r matches Ok(Some(w)) && w == auth.workspace_id,
            },
    {
        match named {
            Some(w) => {
                enforce_workspace(auth.workspace_id.as_str(), Some(w.as_str()), request_id)?;
                Ok(Some(w))
            },
            None => Ok(Some(auth.workspace_id.clone())),
        }
    }

    /// `GET /v1/jobs/{id}`.
    pub fn get_job_at(&mut self, headers: &Vec<(String, String)>, job_id: &str, tick: u64) -> (r: Result<RemoteJobStatus, ApiError>)
        requires
            old(self).wf(),
        ensures
            final(self).wf(),
            final(self).config == old(self).config,
            final(self).store == old(self).store,
            final(self).queue == old(self).queue,
            !allowed(*old(self), headers@, tick) ==> (r matches Err(e) && access_error(*old(self), headers@, tick, e)),
            allowed(*old(self), headers@, tick) ==> match old(self).store.job(job_id@) {
                Some(rec) => r == Ok::<RemoteJobStatus, ApiError>(rec.status),
                None => r matches Err(e) && e.status == 404 && e.body.message@ == job_id@,
            },
    {
        let request_id = request_id_from_headers(headers);
        let _auth = self.check_access_at(headers, tick)?;
        match self.store.get_job(job_id) {
            Ok(st) => Ok(st),
            Err(e) => Err(ApiError::from_store(e, request_id)),
        }
    }

    /// `GET /v1/jobs/{id}/result`.
    pub fn get_result_at(&mut self, headers: &Vec<(String, String)>, job_id: &str, tick: u64) -> (r: Result<RemoteJobResult, ApiError>)
        requires
            old(self).wf(),
        ensures
            final(self).wf(),
            final(self).config == old(self).config,
            final(self).store == old(self).store,
            final(self).queue == old(self).queue,
            !allowed(*old(self), headers@, tick) ==> (r matches Err(e) && access_error(*old(self), headers@, tick, e)),
            allowed(*old(self), headers@, tick) ==> match lookup(old(self).store.results_view(), job_id@) {
                Some(res) => r matches Ok(out) && same_result(out, res),
                None => r matches Err(e) && e.status == 404 && e.body.message@ == job_id@,
            },
    {
        let request_id = request_id_from_headers(headers);
        let _auth = self.check_access_at(headers, tick)?;
        match self.store.get_result(job_id) {
            Ok(res) => Ok(res),
            Err(e) => Err(ApiError::from_store(e, request_id)),
        }
    }

    /// `POST /v1/jobs/{id}/cancel`: a job that has not finished becomes cancelled; a
    /// finished one is left as it is. Either way the answer is its status.
    pub fn cancel_job_at(&mut self, headers: &Vec<(String, String)>, job_id: &str, at: Moment) -> (r: Result<RemoteJobStatus, ApiError>)
        requires
            old(self).wf(),
        ensures
            final(self).wf(),
            final(self).config == old(self).config,
            final(self).queue == old(self).queue,
            !allowed(*old(self), headers@, at.tick) ==> (r matches Err(e) && access_error(*old(self), headers@, at.tick, e)),
            r is Err ==> final(self).store == old(self).store,
            allowed(*old(self), headers@, at.tick) ==> match old(self).store.job(job_id@) {
                None => r matches Err(e) && e.status == 404 && e.body.message@ == job_id@,
                Some(rec) => if is_terminal(rec.status.phase) {
                    r == Ok::<RemoteJobStatus, ApiError>(rec.status) && final(self).store == old(self).store
                } else {
                    &&& r == Ok::<RemoteJobStatus, ApiError>(RemoteJobStatus {
                        phase: RemoteJobPhase::Cancelled,
                        updated_at: at.unix,
                        ..rec.status
                    })
                    &&& final(self).store.job(job_id@) == Some(RemoteJobRecord { status: r->Ok_0, ..rec })
                    &&& forall|k: Seq<char>| k != job_id@ ==> #[trigger] final(self).store.job(k) == old(self).store.job(k)
                },
            },
    {
        let request_id = request_id_from_headers(headers);
        let _auth = self.check_access_at(headers, at.tick)?;
        let ghost before = self.store;
        let mut status = match self.store.get_job(job_id) {
            Ok(st) => st,
            Err(e) => return Err(ApiError::from_store(e, request_id)),
        };
        proof {
            crate::keyed::lemma_lookup_at(before.jobs_view(), crate::keyed::key_index(before.jobs_view(), job_id@));
        }
        if !phase_is_terminal(status.phase) {
            status.phase = RemoteJobPhase::Cancelled;
            status.updated_at = at.unix;
            let saved = status.clone();
            match self.store.update_job(saved) {
                Ok(()) => {},
                Err(e) => return Err(ApiError::from_store(e, request_id)),
            }
        }
        Ok(status)
    }

    /// `GET /v1/jobs/{id}/events/poll`: the events of an existing job, those after
    /// `after` when it is given.
    pub fn job_events_poll_at(&mut self, headers: &Vec<(String, String)>, job_id: &str, after: Option<u64>, tick: u64) -> (r: Result<Vec<RemoteJobEvent>, ApiError>)
        requires
            old(self).wf(),
        ensures
            final(self).wf(),
            final(self).config == old(self).config,
            final(self).store == old(self).store,
            final(self).queue == old(self).queue,
            !allowed(*old(self), headers@, tick) ==> (r matches Err(e) && access_error(*old(self), headers@, tick, e)),
            allowed(*old(self), headers@, tick) ==> match old(self).store.job(job_id@) {
                None => r matches Err(e) && e.status == 404 && e.body.message@ == job_id@,
                Some(_) => r matches Ok(v) && v@ == events_after(events_of(old(self).store.events_view(), job_id@), after),
            },
    {
        let request_id = request_id_from_headers(headers);
        let _auth = self.check_access_at(headers, tick)?;
        match self.store.get_job(job_id) {
            Ok(_) => {},
            Err(e) => return Err(ApiError::from_store(e, request_id)),
        }
        match self.store.list_events(job_id, after) {
            Ok(v) => Ok(v),
            Err(e) => Err(ApiError::from_store(e, request_id)),
        }
    }

    /// `POST /v1/uploads:init`: opens an upload in the caller's workspace.
    pub fn init_upload_at(&mut self, headers: &Vec<(String, String)>, request: RemoteUploadInitRequest, tick: u64) -> (r: Result<RemoteUploadSession, ApiError>)
        requires
            old(self).wf(),
            old(self).store.next_id_view() < u64::MAX,
        ensures
            final(self).wf(),
            final(self).config == old(self).config,
            final(self).queue == old(self).queue,
            !allowed(*old(self), headers@, tick) ==> (r matches Err(e) && access_error(*old(self), headers@, tick, e)),
            r is Err ==> final(self).store == old(self).store,
            allowed(*old(self), headers@, tick) ==> {
                let ws = caller_workspace(*old(self), headers@);
                let named = match request.workspace_id {
                    Some(w) => Some(w@),
                    None => None,
                };
                if !workspace_allowed(ws, named) {
                    r matches Err(e) && e.status == 403
                } else if trim(request.file_name@).len() == 0 {
                    r matches Err(e) && e.status == 400 && e.body.message@ == "file_name required"@
                } else {
                    r matches Ok(sess) && {
                        let id = numbered_id("upl"@, (old(self).store.next_id_view() + 1) as nat);
                        &&& sess.upload_id@ == id
                        &&& final(self).store.upload(id) matches Some(rec)
                        &&& rec.init.workspace_id matches Some(w) && w@ == (match request.workspace_id {
                            Some(x) => x@,
                            None => ws,
                        })
                        &&& rec.init.file_name == request.file_name
                        &&& rec.init.size == request.size
                        &&& rec.init.checksum == request.checksum
                        &&& rec.init.mime == request.mime
                        &&& rec.bytes_received is None
                        &&& !rec.completed
                    }
                }
            },
    {
        let request_id = request_id_from_headers(headers);
        let auth = self.check_access_at(headers, tick)?;
        let mut request = request;
        let ws = Self::file_in_workspace(&auth, request.workspace_id, request_id.clone())?;
        request.workspace_id = ws;
        match self.store.init_upload(request, self.config.public_base.as_str()) {
            Ok(sess) => Ok(sess),
            Err(e) => Err(ApiError::from_store(e, request_id)),
        }
    }

    /// `PUT /v1/uploads/{id}/bytes`, up to the write: checks the caller, the upload's
    /// workspace and the size limit, and says where the bytes go and their checksum.
    pub fn accept_upload_bytes_at(&mut self, headers: &Vec<(String, String)>, upload_id: &str, body: &[u8], tick: u64) -> (r: Result<UploadWrite, ApiError>)
        requires
            old(self).wf(),
            body@.len() <= u64::MAX,
        ensures
            final(self).wf(),
            final(self).config == old(self).config,
            final(self).store == old(self).store,
            final(self).queue == old(self).queue,
            !allowed(*old(self), headers@, tick) ==> (r matches Err(e) && access_error(*old(self), headers@, tick, e)),
            allowed(*old(self), headers@, tick) ==> match old(self).store.upload(upload_id@) {
                None => r matches Err(e) && e.status == 404 && e.body.message@ == upload_id@,
                Some(rec) => if !workspace_allowed(caller_workspace(*old(self), headers@), match rec.init.workspace_id {
                    Some(w) => Some(w@),
                    None => None,
                }) {
                    r matches Err(e) && e.status == 403
                } else if body@.len() > old(self).config.max_upload_bytes {
                    r matches Err(e) && e.status == 413 && e.body.code == RemoteApiErrorCode::RateLimited
                        && e.body.message@ == upload_too_large_message(old(self).config.max_upload_bytes)
                } else {
                    r matches Ok(w) && w.object_key == rec.object_key && w.size == body@.len()
                        && w.checksum@ == checksum_of(body@)
                },
            },
    {
        let request_id = request_id_from_headers(headers);
        let auth = self.check_access_at(headers, tick)?;
        let upload = match self.store.get_upload(upload_id) {
            Ok(u) => u,
            Err(e) => return Err(ApiError::from_store(e, request_id)),
        };
        let named = match &upload.init.workspace_id {
            Some(w) => Some(w.as_str()),
            None => None,
        };
        enforce_workspace(auth.workspace_id.as_str(), named, request_id.clone())?;
        let size = body.len() as u64;
        if size > self.config.max_upload_bytes {
            let mut m: Vec<char> = Vec::new();
            push_str(&mut m, "upload exceeds max_upload_bytes (");
            push_decimal(&mut m, self.config.max_upload_bytes);
            push_str(&mut m, ")");
            proof {
                reveal_strlit("upload exceeds max_upload_bytes (");
                reveal_strlit(")");
            }
            return Err(ApiError::other(413, RemoteApiErrorCode::RateLimited, string_from_chars(&m), request_id));
        }
        let checksum = sha256_hex(body);
        Ok(UploadWrite { request_id, object_key: upload.object_key, size, checksum })
    }

    /// `PUT /v1/uploads/{id}/bytes`, after the write: records the size and checksum of
    /// the stored bytes on the upload.
    pub fn record_upload_bytes(&mut self, upload_id: &str, write: UploadWrite) -> (r: Result<(), ApiError>)
        requires
            old(self).wf(),
        ensures
            final(self).wf(),
            final(self).config == old(self).config,
            final(self).queue == old(self).queue,
            final(self).limiter == old(self).limiter,
            r is Err ==> final(self).store == old(self).store,
            match old(self).store.upload(upload_id@) {
                None => r matches Err(e) && e.status == 404,
                Some(rec) => if rec.completed {
                    r matches Err(e) && e.status == 409
                } else if rec.init.size is Some && rec.init.size != Some(write.size) {
                    r matches Err(e) && e.status == 400
                } else if !checksums_agree(rec.init.checksum, Some(write.checksum)) {
                    r matches Err(e) && e.status == 400 && e.body.message@ == "checksum mismatch"@
                } else {
                    &&& r is Ok
                    &&& final(self).store.upload(upload_id@) == Some(UploadRecord {
                        bytes_received: Some(write.size),
                        received_checksum: Some(write.checksum),
                        ..rec
                    })
                }
            },
    {
        match self.store.mark_upload_bytes(upload_id, write.size, Some(write.checksum)) {
            Ok(()) => Ok(()),
            Err(e) => Err(ApiError::from_store(e, write.request_id)),
        }
    }

    /// `POST /v1/uploads:complete`: turns the received bytes of an upload of the caller's
    /// workspace into an asset, and says which stored object moves where (from the upload's
    /// key to `assets/<asset id>`).
    pub fn complete_upload_at(&mut self, headers: &Vec<(String, String)>, request: RemoteUploadCompleteRequest, tick: u64) -> (r: Result<(RemoteUploadCompleteResponse, ObjectMove), ApiError>)
        requires
            old(self).wf(),
        ensures
            final(self).wf(),
            final(self).config == old(self).config,
            final(self).queue == old(self).queue,
            !allowed(*old(self), headers@, tick) ==> (r matches Err(e) && access_error(*old(self), headers@, tick, e)),
            r is Err ==> final(self).store == old(self).store,
            allowed(*old(self), headers@, tick) ==> match old(self).store.upload(request.upload_id@) {
                None => r matches Err(e) && e.status == 404,
                Some(rec) => if !workspace_allowed(caller_workspace(*old(self), headers@), match rec.init.workspace_id {
                    Some(w) => Some(w@),
                    None => None,
                }) {
                    r matches Err(e) && e.status == 403
                } else if rec.bytes_received is None || !checksums_agree(rec.init.checksum, crate::server::storage::completion_checksum(request.checksum, rec)) {
                    r matches Err(e) && e.status == 400
                } else {
                    r matches Ok((resp, mv)) && {
                        &&& resp.asset.id@ == "asset-"@ + request.upload_id@
                        &&& final(self).store.asset(resp.asset.id@) == Some(resp.asset)
                        &&& final(self).store.upload(request.upload_id@) == Some(UploadRecord { completed: true, ..rec })
                        &&& mv.from == rec.object_key
                        &&& mv.to@ == "assets/"@ + resp.asset.id@
                    }
                },
            },
    {
        let request_id = request_id_from_headers(headers);
        let auth = self.check_access_at(headers, tick)?;
        let upload = match self.store.get_upload(request.upload_id.as_str()) {
            Ok(u) => u,
            Err(e) => return Err(ApiError::from_store(e, request_id)),
        };
        let named = match &upload.init.workspace_id {
            Some(w) => Some(w.as_str()),
            None => None,
        };
        enforce_workspace(auth.workspace_id.as_str(), named, request_id.clone())?;
        let resp = match self.store.complete_upload(request, self.config.public_base.as_str()) {
            Ok(resp) => resp,
            Err(e) => return Err(ApiError::from_store(e, request_id)),
        };
        let mut to: Vec<char> = Vec::new();
        push_str(&mut to, "assets/");
        crate::text::push_all(&mut to, &crate::text::chars_of_string(&resp.asset.id));
        let mv = ObjectMove { from: upload.object_key, to: string_from_chars(&to) };
        Ok((resp, mv))
    }

    /// `POST /v1/uploads:abort`: forgets an upload; when it exists it must belong to the
    /// caller's workspace, and its stored bytes are to be deleted (the key is returned).
    pub fn abort_upload_at(&mut self, headers: &Vec<(String, String)>, upload_id: &str, tick: u64) -> (r: Result<Option<String>, ApiError>)
        requires
            old(self).wf(),
        ensures
            final(self).wf(),
            final(self).config == old(self).config,
            final(self).queue == old(self).queue,
            !allowed(*old(self), headers@, tick) ==> (r matches Err(e) && access_error(*old(self), headers@, tick, e)),
            r is Err ==> final(self).store == old(self).store,
            allowed(*old(self), headers@, tick) ==> match old(self).store.upload(upload_id@) {
                None => r == Ok::<Option<String>, ApiError>(None) && final(self).store.upload(upload_id@) is None,
                Some(rec) => if !workspace_allowed(caller_workspace(*old(self), headers@), match rec.init.workspace_id {
                    Some(w) => Some(w@),
                    None => None,
                }) {
                    r matches Err(e) && e.status == 403
                } else {
                    r == Ok::<Option<String>, ApiError>(Some(rec.object_key)) && final(self).store.upload(upload_id@) is None
                        && forall|k: Seq<char>| k != upload_id@ ==> #[trigger] final(self).store.upload(k) == old(self).store.upload(k)
                },
            },
    {
        let request_id = request_id_from_headers(headers);
        let auth = self.check_access_at(headers, tick)?;
        let mut key: Option<String> = None;
        match self.store.get_upload(upload_id) {
            Ok(upload) => {
                let named = match &upload.init.workspace_id {
                    Some(w) => Some(w.as_str()),
                    None => None,
                };
                enforce_workspace(auth.workspace_id.as_str(), named, request_id.clone())?;
                key = Some(upload.object_key);
            },
            Err(_) => {},
        }
        match self.store.abort_upload(upload_id) {
            Ok(()) => Ok(key),
            Err(e) => Err(ApiError::from_store(e, request_id)),
        }
    }

    /// `POST /v1/review/batches`: makes a batch in the caller's workspace (or the one it
    /// names, when the caller may use it) with one item per asset.
    pub fn create_batch_at(&mut self, headers: &Vec<(String, String)>, request: CreateRemoteBatchRequest, at: Moment) -> (r: Result<RemoteBatch, ApiError>)
        requires
            old(self).wf(),
            old(self).store.next_id_view() + 1 + request.asset_ids@.len() <= u64::MAX,
        ensures
            final(self).wf(),
            final(self).config == old(self).config,
            final(self).queue == old(self).queue,
            !allowed(*old(self), headers@, at.tick) ==> (r matches Err(e) && access_error(*old(self), headers@, at.tick, e)),
            allowed(*old(self), headers@, at.tick) && !workspace_allowed(caller_workspace(*old(self), headers@), match request.workspace_id {
                Some(w) => Some(w@),
                None => None,
            }) ==> (r matches Err(e) && e.status == 403 && final(self).store == old(self).store),
            allowed(*old(self), headers@, at.tick) && workspace_allowed(caller_workspace(*old(self), headers@), match request.workspace_id {
                Some(w) => Some(w@),
                None => None,
            }) ==> {
                &&& (r is Ok <==> forall|j: int| 0 <= j < request.asset_ids@.len() ==> #[trigger] old(self).store.asset(request.asset_ids@[j]@) is Some)
                &&& r matches Ok(b) ==> {
                    &&& final(self).store.batch(b.batch_id@) == Some(b)
                    &&& b.name == request.name
                    &&& b.kind == request.kind
                    &&& b.item_count == request.asset_ids@.len()
                    &&& b.created_at == at.unix
                    &&& b.workspace_id matches Some(w) && w@ == filed_workspace_of(request.workspace_id, caller_workspace(*old(self), headers@))
                }
            },
    {
        let request_id = request_id_from_headers(headers);
        let auth = self.check_access_at(headers, at.tick)?;
        let mut request = request;
        let ws = Self::file_in_workspace(&auth, request.workspace_id, request_id.clone())?;
        request.workspace_id = ws;
        match self.store.create_batch_at(request, at.unix) {
            Ok(b) => Ok(b),
            Err(e) => Err(ApiError::from_store(e, request_id)),
        }
    }

    /// `PUT /v1/review/items/{id}/annotations`: an annotation without an item takes the
    /// one in the path; one naming another item is refused.
    pub fn upsert_annotation_at(&mut self, headers: &Vec<(String, String)>, item_id: &str, annotation: RemoteAnnotation, at: Moment) -> (r: Result<RemoteAnnotation, ApiError>)
        requires
            old(self).wf(),
            old(self).store.next_id_view() < u64::MAX,
        ensures
            final(self).wf(),
            final(self).config == old(self).config,
            final(self).queue == old(self).queue,
            !allowed(*old(self), headers@, at.tick) ==> (r matches Err(e) && access_error(*old(self), headers@, at.tick, e)),
            r is Err ==> final(self).store == old(self).store,
            allowed(*old(self), headers@, at.tick) ==> if annotation.item_id@.len() > 0 && annotation.item_id@ != item_id@ {
                r matches Err(e) && e.status == 400 && e.body.code == RemoteApiErrorCode::Validation
                    && e.body.message@ == "annotation item_id does not match path"@
            } else {
                r matches Ok(a) && {
                    &&& a.item_id@ == item_id@
                    &&& a.annotation_id@ == (if annotation.annotation_id@.len() == 0 {
                        numbered_id("ann"@, (old(self).store.next_id_view() + 1) as nat)
                    } else {
                        annotation.annotation_id@
                    })
                    &&& a.text == annotation.text && a.author == annotation.author && a.time_ms == annotation.time_ms
                    &&& a.schema_version == (if annotation.schema_version == 0 { REMOTE_SCHEMA_VERSION } else { annotation.schema_version })
                    &&& a.created_at == (if annotation.created_at == 0 { at.unix } else { annotation.created_at })
                    &&& upserted(old(self).store.annotations_view(), final(self).store.annotations_view(), a)
                }
            },
    {
        let request_id = request_id_from_headers(headers);
        let _auth = self.check_access_at(headers, at.tick)?;
        let mut annotation = annotation;
        if annotation.item_id.as_str().is_empty() {
            annotation.item_id = string_of(item_id);
        } else if !crate::text::eq_str(&crate::text::chars_of_string(&annotation.item_id), item_id) {
            return Err(ApiError::other(400, RemoteApiErrorCode::Validation, string_of("annotation item_id does not match path"), request_id));
        }
        match self.store.upsert_annotation_at(annotation, at.unix) {
            Ok(a) => Ok(a),
            Err(e) => Err(ApiError::from_store(e, request_id)),
        }
    }

    /// `GET /v1/video/batches`: the page of video-review batches among the first
    /// ten thousand review batches, with their count.
    pub fn list_video_batches_at(&mut self, headers: &Vec<(String, String)>, query: RemotePageQuery, tick: u64) -> (r: Result<RemotePage<RemoteReviewBatchSummary>, ApiError>)
        requires
            old(self).wf(),
        ensures
            final(self).wf(),
            final(self).config == old(self).config,
            final(self).store == old(self).store,
            final(self).queue == old(self).queue,
            !allowed(*old(self), headers@, tick) ==> (r matches Err(e) && access_error(*old(self), headers@, tick, e)),
            allowed(*old(self), headers@, tick) ==> (r matches Ok(p) && {
                let videos = video_batches(page_of(old(self).store.review_batches_view(), 0, 10000));
                &&& p.total == videos.len()
                &&& p.items@ == page_of(videos, query.offset as nat, query.limit as nat)
            }),
    {
        let request_id = request_id_from_headers(headers);
        let _auth = self.check_access_at(headers, tick)?;
        let all_query = RemotePageQuery { limit: 10000, offset: 0, workspace_id: query.workspace_id, cursor: query.cursor };
        let page = match self.store.list_review_batches(all_query) {
            Ok(p) => p,
            Err(e) => return Err(ApiError::from_store(e, request_id)),
        };
        let all = page.items;
        let mut videos: Vec<RemoteReviewBatchSummary> = Vec::new();
        let mut i: usize = 0;
        while i < all.len()
            invariant
                i <= all@.len(),
                videos@ == video_batches(all@.subrange(0, i as int)),
            decreases all@.len() - i,
        {
            proof {
                assert(all@.subrange(0, i + 1).drop_last() =~= all@.subrange(0, i as int));
            }
            if all[i].source == RemoteJobSource::VideoReview {
                videos.push(all[i].clone());
            }
            i += 1;
        }
        proof {
            assert(all@.subrange(0, all@.len() as int) =~= all@);
        }
        let total = videos.len();
        Ok(RemotePage::new(take_page(videos, query.offset, query.limit), total))
    }

    /// Puts every queued job of the store back in the queue as attempt 0, in the order
    /// the store lists them: what a restarted server does before it serves.
    pub fn requeue_queued(&mut self) -> (r: Result<(), ApiError>)
        requires
            old(self).wf(),
        ensures
            final(self).wf(),
            final(self).config == old(self).config,
            final(self).store == old(self).store,
            final(self).limiter == old(self).limiter,
            final(self).queue.inflight_view() == old(self).queue.inflight_view(),
            final(self).queue.pending_view().subrange(0, old(self).queue.pending_view().len() as int) == old(self).queue.pending_view(),
            forall|k: int| old(self).queue.pending_view().len() <= k < final(self).queue.pending_view().len() ==> {
                let m = #[trigger] final(self).queue.pending_view()[k];
                &&& m.attempt == 0
                &&& old(self).store.job(m.job_id@) matches Some(rec) && rec.status.phase == RemoteJobPhase::Queued
            },
            r is Ok,
            exists|ids: Seq<Seq<char>>| {
                &&& #[trigger] queued_listing(old(self).store, ids)
                &&& final(self).queue.pending_view().len() == old(self).queue.pending_view().len() + ids.len()
                &&& forall|k: int| 0 <= k < ids.len() ==> (#[trigger] final(self).queue.pending_view()[old(self).queue.pending_view().len() + k]).job_id@ == ids[k]
            },
    {
        let ids = match self.store.list_queued_job_ids() {
            Ok(v) => v,
            Err(e) => return Err(ApiError::from_store(e, string_of("startup"))),
        };
        let ghost p0 = self.queue.pending_view();
        let mut i: usize = 0;
        while i < ids.len()
            invariant
                i <= ids@.len(),
                self.wf(),
                self.config == old(self).config,
                self.store == old(self).store,
                self.limiter == old(self).limiter,
                p0 == old(self).queue.pending_view(),
                self.queue.inflight_view() == old(self).queue.inflight_view(),
                self.queue.pending_view().len() == p0.len() + i,
                self.queue.pending_view().subrange(0, p0.len() as int) == p0,
                forall|k: int| 0 <= k < ids@.len() ==> (old(self).store.job(#[trigger] ids@[k]@) matches Some(rec)
                    && rec.status.phase == RemoteJobPhase::Queued),
                forall|k: int| p0.len() <= k < self.queue.pending_view().len() ==> {
                    let m = #[trigger] self.queue.pending_view()[k];
                    &&& m.attempt == 0
                    &&& m.job_id@ == ids@[k - p0.len()]@
                },
            decreases ids@.len() - i,
        {
            let ghost before = self.queue.pending_view();
            let _ = self.queue.enqueue(ids[i].as_str(), 0);
            proof {
                let after = self.queue.pending_view();
                assert(after.subrange(0, p0.len() as int) =~= before.subrange(0, p0.len() as int)) by {
                    assert forall|k: int| 0 <= k < p0.len() implies after[k] == before[k] by {
                        assert(after.drop_last()[k] == before[k]);
                    }
                }
                assert forall|k: int| p0.len() <= k < after.len() implies {
                    let m = #[trigger] after[k];
                    &&& m.attempt == 0
                    &&& m.job_id@ == ids@[k - p0.len()]@
                } by {
                    if k < after.len() - 1 {
                        assert(after.drop_last()[k] == before[k]);
                    }
                }
            }
            i += 1;
        }
        proof {
            let iv = ids@.map_values(|s: String| s@);
            assert forall|k: int| 0 <= k < iv.len() implies (#[trigger] self.queue.pending_view()[p0.len() + k]).job_id@ == iv[k] by {
                assert(self.queue.pending_view()[p0.len() + k].job_id@ == ids@[k]@);
            }
            assert(queued_listing(old(self).store, iv));
        }
        Ok(())
    }
}

/// Where the bytes of an upload go once accepted, with their size and checksum.
#[derive(Debug)]
pub struct UploadWrite {
    pub request_id: String,
    pub object_key: String,
    pub size: u64,
    pub checksum: String,
}

/// `upload exceeds max_upload_bytes (<n>)`.
pub open spec fn upload_too_large_message(n: u64) -> Seq<char> {
    "upload exceeds max_upload_bytes ("@ + decimal(n as nat) + ")"@
}

/// The video-review batches among `s`, in order.
pub open spec fn video_batches(s: Seq<RemoteReviewBatchSummary>) -> Seq<RemoteReviewBatchSummary>
    decreases s.len(),
{
    if s.len() == 0 {
        s
    } else {
        let rest = video_batches(s.drop_last());
        if s.last().source == RemoteJobSource::VideoReview {
            rest.push(s.last())
        } else {
            rest
        }
    }
}

/// Which metadata store the server runs on.
#[derive(Debug, Clone, Copy, PartialEq, Eq, Structural)]
pub enum StoreBackend {
    Postgres,
    Sqlite,
}

/// Which job queue the server runs on.
#[derive(Debug, Clone, Copy, PartialEq, Eq, Structural)]
pub enum QueueBackend {
    Redis,
    Memory,
}

/// Which object store the server runs on.
#[derive(Debug, Clone, Copy, PartialEq, Eq, Structural)]
pub enum ObjectBackend {
    S3,
    Disk,
}

/// The back ends that a configuration asks for.
#[derive(Debug, Clone, Copy, PartialEq, Eq, Structural)]
pub struct BackendPlan {
    pub store: StoreBackend,
    pub queue: QueueBackend,
    pub objects: ObjectBackend,
}

/// Postgres when a `postgres` database URL is set, else SQLite; Redis when a Redis URL is
/// set, else the in-process queue; S3 when a bucket and an endpoint are set, else disk.
pub fn backend_plan(config: &ServerConfig) -> (r: BackendPlan)
    ensures
        r.store == (if config.uses_postgres_spec() { StoreBackend::Postgres } else { StoreBackend::Sqlite }),
        r.queue == (if config.uses_redis_spec() { QueueBackend::Redis } else { QueueBackend::Memory }),
        r.objects == (if config.uses_s3_spec() { ObjectBackend::S3 } else { ObjectBackend::Disk }),
{
    BackendPlan {
        store: if config.uses_postgres() { StoreBackend::Postgres } else { StoreBackend::Sqlite },
        queue: if config.uses_redis() { QueueBackend::Redis } else { QueueBackend::Memory },
        objects: if config.uses_s3() { ObjectBackend::S3 } else { ObjectBackend::Disk },
    }
}


/// The page size that listings use when none is given: 50.
pub fn default_limit() -> (r: usize)
    ensures
        r == 50,
{
    50
}

/// Query of `GET /v1/jobs`: how many jobs to list.
#[derive(Debug)]
pub struct LimitQuery {
    pub limit: usize,
}

/// Query of the event routes: only events after this time.
#[derive(Debug)]
pub struct EventsQuery {
    pub after: Option<u64>,
}

/// Query of the paged listings.
#[derive(Debug)]
pub struct PageQueryParams {
    pub limit: usize,
    pub offset: usize,
    pub workspace_id: Option<String>,
    pub cursor: Option<String>,
}

impl PageQueryParams {
    /// The store's page query with the same fields.
    pub fn into_page_query(self) -> (r: RemotePageQuery)
        ensures
            r == (RemotePageQuery { limit: self.limit, offset: self.offset, workspace_id: self.workspace_id, cursor: self.cursor }),
    {
        RemotePageQuery { limit: self.limit, offset: self.offset, workspace_id: self.workspace_id, cursor: self.cursor }
    }
}

/// A stored object to move: from one key to another.
#[derive(Debug)]
pub struct ObjectMove {
    pub from: String,
    pub to: String,
}

/// The workspace named, or else the caller's.
pub open spec fn filed_workspace_of(named: Option<String>, ws: Seq<char>) -> Seq<char> {
    match named {
        Some(x) => x@,
        None => ws,
    }
}

} // verus!
