use imgforge::server::auth::authorize;
use imgforge::server::config::{ServerConfig, WorkerReliabilityPolicy};
use imgforge::server::error::RemoteApiErrorCode;
use imgforge::server::handlers::{backend_plan, ApiCore, Moment, ObjectBackend, QueueBackend, StoreBackend};
use imgforge::server::models::{
    CreateRemoteBatchRequest, RemoteAnnotation, RemoteUploadCompleteRequest, RemoteAssetRef, RemoteBatchKind, RemoteJobPhase,
    RemoteJobRequest, RemoteJobSource, RemotePageQuery, RemoteUploadInitRequest,
};
use imgforge::server::object_store::{sha256_hex, MemoryObjectStore};
use imgforge::server::queue::InMemoryQueue;
use imgforge::server::storage::InMemoryJobStore;
use imgforge::server::worker::{
    attach_generated_assets, fail_or_retry, finish_extract_job, finish_review_job, AttemptEnd, GeneratedAsset,
};

fn headers(pairs: &[(&str, &str)]) -> Vec<(String, String)> {
    pairs.iter().map(|(k, v)| (k.to_string(), v.to_string())).collect()
}

fn at(unix: u64) -> Moment {
    Moment { unix, tick: 0 }
}

fn core_with_token(token: Option<&str>) -> ApiCore {
    let mut config = ServerConfig::default_in("/tmp/imgforge-test".to_string());
    config.auth_token = token.map(|t| t.to_string());
    ApiCore::in_memory(config)
}

fn asset(id: &str) -> RemoteAssetRef {
    RemoteAssetRef {
        id: id.to_string(),
        name: format!("{id}.png"),
        mime: Some("image/png".to_string()),
        size: Some(10),
        checksum: None,
        download_url: None,
    }
}

#[test]
fn submit_refused_without_token_changes_nothing() {
    let mut core = core_with_token(Some("secret"));
    let r = core.submit_job_at(&headers(&[("x-request-id", "req-9")]), RemoteJobRequest::default_request(), at(100));
    let e = r.unwrap_err();
    assert_eq!(e.status, 401);
    assert_eq!(e.body.code, RemoteApiErrorCode::Unauthorized);
    assert_eq!(e.body.request_id.as_deref(), Some("req-9"));
    assert_eq!(core.queue.pending_len().unwrap(), 0);
    assert!(core.store.get_job("job-1").is_err());
}

#[test]
fn submit_with_token_creates_and_queues_job() {
    let mut core = core_with_token(Some("secret"));
    let h = headers(&[("authorization", "Bearer secret"), ("x-imgforge-workspace", "team-a")]);
    let st = core.submit_job_at(&h, RemoteJobRequest::default_request(), at(100)).unwrap();
    assert_eq!(st.job_id, "job-1");
    assert_eq!(st.phase, RemoteJobPhase::Queued);
    assert_eq!(st.created_at, 100);
    assert_eq!(st.total, 1);
    assert_eq!(core.queue.pending_len().unwrap(), 1);
    let rec = core.store.get_job_record("job-1").unwrap();
    assert_eq!(rec.request.workspace_id.as_deref(), Some("team-a"));
}

#[test]
fn submit_rejects_newer_schema() {
    let mut core = core_with_token(None);
    let mut req = RemoteJobRequest::default_request();
    req.schema_version = 7;
    let e = core.submit_job_at(&headers(&[]), req, at(1)).unwrap_err();
    assert_eq!(e.status, 400);
    assert_eq!(e.body.code, RemoteApiErrorCode::UnsupportedSchema);
    assert_eq!(e.body.message, "unsupported schema 7");
    assert_eq!(core.queue.pending_len().unwrap(), 0);
}

#[test]
fn submit_rejects_other_workspace() {
    let mut core = core_with_token(None);
    let mut req = RemoteJobRequest::default_request();
    req.workspace_id = Some("other".to_string());
    let e = core.submit_job_at(&headers(&[]), req, at(1)).unwrap_err();
    assert_eq!(e.status, 403);
    assert_eq!(e.body.message, "workspace mismatch: expected default, got other");
}

#[test]
fn limiter_refuses_after_capacity() {
    let mut config = ServerConfig::default_in("/tmp/x".to_string());
    config.rate_limit_per_minute = 2;
    let mut core = ApiCore::in_memory(config);
    let h = headers(&[("x-forwarded-for", "10.0.0.1, 10.0.0.2")]);
    assert!(core.get_job_at(&h, "job-1", 0).is_err());
    assert!(core.get_job_at(&h, "job-1", 0).unwrap_err().status == 404);
    let e = core.get_job_at(&h, "job-1", 0).unwrap_err();
    assert_eq!(e.status, 429);
    assert_eq!(e.body.code, RemoteApiErrorCode::RateLimited);
    // another caller has its own bucket
    let other = headers(&[("x-forwarded-for", "10.0.0.9")]);
    assert_eq!(core.get_job_at(&other, "job-1", 0).unwrap_err().status, 404);
}

#[test]
fn cancel_marks_unfinished_job_cancelled() {
    let mut core = core_with_token(None);
    let h = headers(&[]);
    core.submit_job_at(&h, RemoteJobRequest::default_request(), at(10)).unwrap();
    let st = core.cancel_job_at(&h, "job-1", at(20)).unwrap();
    assert_eq!(st.phase, RemoteJobPhase::Cancelled);
    assert_eq!(st.updated_at, 20);
    let again = core.cancel_job_at(&h, "job-1", at(30)).unwrap();
    assert_eq!(again.updated_at, 20);
    assert_eq!(core.cancel_job_at(&h, "job-404", at(30)).unwrap_err().status, 404);
    let events = core.job_events_poll_at(&h, "job-1", Some(10), 0).unwrap();
    assert_eq!(events.len(), 1);
    assert_eq!(events[0].phase, Some(RemoteJobPhase::Cancelled));
    let all = core.job_events_poll_at(&h, "job-1", None, 0).unwrap();
    assert_eq!(all.len(), 2);
}

#[test]
fn upload_bytes_flow_and_size_limit() {
    let mut config = ServerConfig::default_in("/tmp/x".to_string());
    config.max_upload_bytes = 4;
    let mut core = ApiCore::in_memory(config);
    let h = headers(&[]);
    let init = RemoteUploadInitRequest {
        workspace_id: None,
        file_name: "a.png".to_string(),
        size: None,
        checksum: None,
        mime: None,
    };
    let session = core.init_upload_at(&h, init, 0).unwrap();
    assert_eq!(session.upload_id, "upl-1");
    let e = core.accept_upload_bytes_at(&h, "upl-1", b"hello", 0).unwrap_err();
    assert_eq!(e.status, 413);
    assert_eq!(e.body.message, "upload exceeds max_upload_bytes (4)");
    let write = core.accept_upload_bytes_at(&h, "upl-1", b"hey", 0).unwrap();
    assert_eq!(write.size, 3);
    assert_eq!(write.checksum, sha256_hex(b"hey"));
    core.record_upload_bytes("upl-1", write).unwrap();
    let rec = core.store.get_upload("upl-1").unwrap();
    assert_eq!(rec.bytes_received, Some(3));
    assert_eq!(rec.init.workspace_id.as_deref(), Some("default"));
}

#[test]
fn upload_init_requires_file_name() {
    let mut core = core_with_token(None);
    let init = RemoteUploadInitRequest {
        workspace_id: None,
        file_name: "  ".to_string(),
        size: None,
        checksum: None,
        mime: None,
    };
    let e = core.init_upload_at(&headers(&[]), init, 0).unwrap_err();
    assert_eq!(e.status, 400);
    assert_eq!(e.body.message, "file_name required");
}

#[test]
fn annotation_must_match_path_item() {
    let mut core = core_with_token(None);
    let h = headers(&[]);
    let ann = RemoteAnnotation {
        schema_version: 0,
        annotation_id: String::new(),
        item_id: "item-9".to_string(),
        text: "note".to_string(),
        author: None,
        time_ms: Some(5),
        created_at: 0,
    };
    let e = core.upsert_annotation_at(&h, "item-1", ann, at(50)).unwrap_err();
    assert_eq!(e.status, 400);
    assert_eq!(e.body.message, "annotation item_id does not match path");
    let ann = RemoteAnnotation {
        schema_version: 0,
        annotation_id: String::new(),
        item_id: String::new(),
        text: "note".to_string(),
        author: None,
        time_ms: Some(5),
        created_at: 0,
    };
    let saved = core.upsert_annotation_at(&h, "item-1", ann, at(50)).unwrap();
    assert_eq!(saved.item_id, "item-1");
    assert_eq!(saved.annotation_id, "ann-1");
    assert_eq!(saved.created_at, 50);
    assert_eq!(saved.schema_version, 1);
}

#[test]
fn video_batches_are_listed_apart() {
    let mut core = core_with_token(None);
    for (name, kind) in [("a", RemoteBatchKind::Video), ("b", RemoteBatchKind::Image), ("c", RemoteBatchKind::Video)] {
        let req = CreateRemoteBatchRequest {
            name: name.to_string(),
            kind,
            workspace_id: None,
            asset_ids: Vec::new(),
        };
        core.store.create_batch_at(req, 1).unwrap();
    }
    let q = RemotePageQuery { limit: 0, offset: 1, workspace_id: None, cursor: None };
    let page = core.list_video_batches_at(&headers(&[]), q, 0).unwrap();
    assert_eq!(page.total, 2);
    assert_eq!(page.items.len(), 1);
    assert_eq!(page.items[0].name, "c");
}

#[test]
fn requeue_puts_queued_jobs_back() {
    let mut core = core_with_token(None);
    core.store.create_job_at(RemoteJobRequest::default_request(), 1).unwrap();
    core.store.create_job_at(RemoteJobRequest::default_request(), 1).unwrap();
    core.requeue_queued().unwrap();
    assert_eq!(core.queue.pending_len().unwrap(), 2);
}

#[test]
fn backend_plan_follows_configuration() {
    let mut config = ServerConfig::default_in("/tmp/x".to_string());
    let p = backend_plan(&config);
    assert_eq!(p.store, StoreBackend::Sqlite);
    assert_eq!(p.queue, QueueBackend::Memory);
    assert_eq!(p.objects, ObjectBackend::Disk);
    config.database_url = Some("postgres://db/x".to_string());
    config.redis_url = Some("redis://r".to_string());
    config.s3.bucket = Some("b".to_string());
    config.s3.endpoint = Some("http://s3".to_string());
    let p = backend_plan(&config);
    assert_eq!(p.store, StoreBackend::Postgres);
    assert_eq!(p.queue, QueueBackend::Redis);
    assert_eq!(p.objects, ObjectBackend::S3);
}

#[test]
fn authorize_reads_workspace_and_token() {
    let mut config = ServerConfig::default_in("/tmp/x".to_string());
    config.auth_token = Some("t".to_string());
    let ctx = authorize(&config, &headers(&[("authorization", "bearer t"), ("x-imgforge-workspace", " ws ")])).unwrap();
    assert!(ctx.token_present);
    assert_eq!(ctx.workspace_id, "ws");
    assert_eq!(ctx.actor.as_deref(), Some("bearer-token"));
    let e = authorize(&config, &headers(&[("authorization", "Bearer nope")])).unwrap_err();
    assert_eq!(e.status, 401);
}

#[test]
fn retry_then_dead_letter() {
    let mut store = InMemoryJobStore::new();
    let mut queue = InMemoryQueue::new();
    let policy = WorkerReliabilityPolicy::default_policy();
    let st = store.create_job_at(RemoteJobRequest::default_request(), 5).unwrap();
    let end = fail_or_retry(&mut store, &mut queue, &policy, "tok", "job-1", 0, &st, "boom".to_string(), 6);
    assert_eq!(end, AttemptEnd::Retry { next_attempt: 1, sleep_ms: 50 });
    assert_eq!(store.list_dead_letters().unwrap().len(), 0);
    let end = fail_or_retry(&mut store, &mut queue, &policy, "tok", "job-1", 2, &st, "boom".to_string(), 7);
    assert_eq!(end, AttemptEnd::DeadLettered);
    let dead = store.list_dead_letters().unwrap();
    assert_eq!(dead.len(), 1);
    assert_eq!(dead[0].attempts, 3);
    assert_eq!(dead[0].last_error, "boom");
    let job = store.get_job("job-1").unwrap();
    assert_eq!(job.phase, RemoteJobPhase::Failed);
    assert_eq!(job.error_summary.as_deref(), Some("boom"));
    let res = store.get_result("job-1").unwrap();
    assert_eq!(res.failures, 1);
}

#[test]
fn review_job_attaches_thumbnails_to_new_batch() {
    let mut store = InMemoryJobStore::new();
    let config = ServerConfig::default_in("/tmp/x".to_string());
    store.register_asset(asset("in-1")).unwrap();
    let mut req = RemoteJobRequest::default_request();
    req.source = RemoteJobSource::Review;
    req.inputs = vec![asset("in-1")];
    store.create_job_at(req.clone(), 1).unwrap();
    let thumb = asset("thumb-1");
    let generated = vec![GeneratedAsset { input_id: "in-1".to_string(), asset: thumb.clone(), dimensions: (256, 144) }];
    let (res, st) = finish_review_job(
        &mut store, &config, "job-1", &req, RemoteBatchKind::Image, "Review", &generated, true,
        vec![thumb.clone()], 1, 9,
    )
    .unwrap();
    assert_eq!(res.phase, RemoteJobPhase::Succeeded);
    assert_eq!(res.successes, 1);
    assert_eq!(st.phase, RemoteJobPhase::Succeeded);
    assert_eq!(st.processed, 1);
    let batch = store.get_batch("batch-2").unwrap();
    assert_eq!(batch.name, "Review job-1");
    assert_eq!(batch.workspace_id.as_deref(), Some("default"));
    let items = store.list_review_items("batch-2").unwrap();
    assert_eq!(items.len(), 1);
    assert_eq!(items[0].thumb_asset.as_ref().map(|a| a.id.as_str()), Some("thumb-1"));
    assert!(items[0].preview_asset.is_none());
    assert_eq!(items[0].width, Some(256));
    assert_eq!(items[0].height, Some(144));
}

#[test]
fn attaching_with_previews_sets_both() {
    let mut store = InMemoryJobStore::new();
    store.register_asset(asset("v-1")).unwrap();
    let req = CreateRemoteBatchRequest {
        name: "b".to_string(),
        kind: RemoteBatchKind::Video,
        workspace_id: None,
        asset_ids: vec!["v-1".to_string()],
    };
    let batch = store.create_batch_at(req, 1).unwrap();
    let generated = vec![
        GeneratedAsset { input_id: "v-1".to_string(), asset: asset("cover-old"), dimensions: (1, 1) },
        GeneratedAsset { input_id: "v-1".to_string(), asset: asset("cover-new"), dimensions: (1920, 1080) },
    ];
    attach_generated_assets(&mut store, &batch.batch_id, &generated, false, 2).unwrap();
    let items = store.list_review_items(&batch.batch_id).unwrap();
    assert_eq!(items[0].thumb_asset.as_ref().map(|a| a.id.as_str()), Some("cover-new"));
    assert_eq!(items[0].preview_asset.as_ref().map(|a| a.id.as_str()), Some("cover-new"));
    assert_eq!(items[0].updated_at, 2);
}

#[test]
fn review_job_with_missing_batch_fails() {
    let mut store = InMemoryJobStore::new();
    let config = ServerConfig::default_in("/tmp/x".to_string());
    let mut req = RemoteJobRequest::default_request();
    req.extras = vec![("batch_id".to_string(), "batch-77".to_string())];
    store.create_job_at(req.clone(), 1).unwrap();
    let r = finish_review_job(&mut store, &config, "job-1", &req, RemoteBatchKind::Image, "Review", &Vec::new(), true, Vec::new(), 0, 2);
    assert!(r.is_err());
}

#[test]
fn extract_job_records_report() {
    let mut store = InMemoryJobStore::new();
    let mut req = RemoteJobRequest::default_request();
    req.source = RemoteJobSource::DataExtract;
    store.create_job_at(req.clone(), 1).unwrap();
    let report = asset("report");
    let (res, st) = finish_extract_job(&mut store, "job-1", &req, report, 2, 3).unwrap();
    assert_eq!(res.artifacts.len(), 1);
    assert_eq!(st.total, 2);
    let page = store.list_extract_results(RemotePageQuery { limit: 10, offset: 0, workspace_id: None, cursor: None }).unwrap();
    assert_eq!(page.items[0].result_id, "extract-job-1");
    assert_eq!(page.items[0].module, "remote_data_extract");
    assert_eq!(page.items[0].batch_name, "Data Extract job-1");
}

#[test]
fn memory_store_reads_back_what_was_written() {
    let mut objects = MemoryObjectStore::new();
    objects.put_bytes("a/b.bin", b"hello".to_vec()).unwrap();
    assert_eq!(objects.get_bytes("a/b.bin").unwrap(), b"hello");
    assert!(objects.has_object("a/b.bin").unwrap());
    objects.delete("a/b.bin").unwrap();
    assert!(!objects.has_object("a/b.bin").unwrap());
}

#[test]
fn complete_upload_moves_bytes_to_asset() {
    let mut core = core_with_token(None);
    let h = headers(&[]);
    let init = RemoteUploadInitRequest {
        workspace_id: None,
        file_name: "a.png".to_string(),
        size: Some(3),
        checksum: None,
        mime: Some("image/png".to_string()),
    };
    core.init_upload_at(&h, init, 0).unwrap();
    let early = core
        .complete_upload_at(&h, RemoteUploadCompleteRequest { upload_id: "upl-1".to_string(), checksum: None }, 0)
        .unwrap_err();
    assert_eq!(early.status, 400);
    let write = core.accept_upload_bytes_at(&h, "upl-1", b"abc", 0).unwrap();
    let from_key = write.object_key.clone();
    core.record_upload_bytes("upl-1", write).unwrap();
    let (resp, mv) = core
        .complete_upload_at(&h, RemoteUploadCompleteRequest { upload_id: "upl-1".to_string(), checksum: None }, 0)
        .unwrap();
    assert_eq!(resp.asset.id, "asset-upl-1");
    assert_eq!(resp.asset.size, Some(3));
    assert_eq!(mv.from, from_key);
    assert_eq!(mv.to, "assets/asset-upl-1");
    assert!(core.store.get_asset("asset-upl-1").is_ok());
}

#[test]
fn abort_upload_in_other_workspace_is_refused() {
    let mut core = core_with_token(None);
    let init = RemoteUploadInitRequest {
        workspace_id: Some("team-b".to_string()),
        file_name: "a.png".to_string(),
        size: None,
        checksum: None,
        mime: None,
    };
    core.init_upload_at(&headers(&[("x-imgforge-workspace", "team-b")]), init, 0).unwrap();
    let e = core.abort_upload_at(&headers(&[]), "upl-1", 0).unwrap_err();
    assert_eq!(e.status, 403);
    assert!(core.store.get_upload("upl-1").is_ok());
    let key = core.abort_upload_at(&headers(&[("x-imgforge-workspace", "team-b")]), "upl-1", 0).unwrap();
    assert!(key.is_some());
    assert!(core.store.get_upload("upl-1").is_err());
    assert_eq!(core.abort_upload_at(&headers(&[]), "upl-404", 0).unwrap(), None);
}

#[test]
fn create_batch_needs_registered_assets() {
    let mut core = core_with_token(None);
    let h = headers(&[("x-imgforge-workspace", "ws")]);
    let req = CreateRemoteBatchRequest {
        name: "b".to_string(),
        kind: RemoteBatchKind::Image,
        workspace_id: None,
        asset_ids: vec!["missing".to_string()],
    };
    let e = core.create_batch_at(&h, req, at(5)).unwrap_err();
    assert_eq!(e.status, 404);
    core.store.register_asset(asset("a1")).unwrap();
    let req = CreateRemoteBatchRequest {
        name: "b".to_string(),
        kind: RemoteBatchKind::Image,
        workspace_id: None,
        asset_ids: vec!["a1".to_string()],
    };
    let b = core.create_batch_at(&h, req, at(5)).unwrap();
    assert_eq!(b.workspace_id.as_deref(), Some("ws"));
    assert_eq!(b.item_count, 1);
    assert_eq!(b.created_at, 5);
}
