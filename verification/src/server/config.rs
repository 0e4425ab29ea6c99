//! Server configuration: defaults, the directories under the data directory, which
//! backends are in use, and reading settings from environment variables.
use vstd::prelude::*;

use crate::text::{
    chars_of, chars_of_string, eq_str, eq_vec, is_white_space, parse_unsigned, parse_unsigned_vec,
    push_all, push_str, starts_with, starts_with_exec, string_from_chars, string_of, strip_suffix,
    strip_suffix_vec, strip_trailing, strip_trailing_vec, trim, trim_vec,
};

verus! {

/// Worker retry policy: how long a claim lasts, how often a job is tried, how long to wait
/// between attempts, and whether artifacts must carry a checksum.
#[derive(Debug, Clone, Copy, PartialEq, Eq, Structural)]
pub struct WorkerReliabilityPolicy {
    pub lease_secs: u64,
    pub max_attempts: u32,
    pub backoff_base_ms: u64,
    pub backoff_max_ms: u64,
    pub require_artifact_checksum: bool,
}

/// `2^e`.
pub open spec fn pow2(e: nat) -> nat
    decreases e,
{
    if e == 0 {
        1
    } else {
        2 * pow2((e - 1) as nat)
    }
}

/// Backoff before attempt `attempt`: the base doubled for each attempt after the first,
/// never above the maximum.
pub open spec fn backoff_spec(base: nat, max: nat, attempt: nat) -> nat {
    let e: nat = if attempt == 0 { 0 } else { (attempt - 1) as nat };
    if base * pow2(e) > max {
        max
    } else {
        base * pow2(e)
    }
}

impl WorkerReliabilityPolicy {
    /// A 60 s lease, three attempts, backoff from 500 ms up to 30 s, no checksum required.
    pub fn default_policy() -> (p: Self)
        ensures
            p.lease_secs == 60,
            p.max_attempts == 3,
            p.backoff_base_ms == 500,
            p.backoff_max_ms == 30_000,
            !p.require_artifact_checksum,
    {
        WorkerReliabilityPolicy {
            lease_secs: 60,
            max_attempts: 3,
            backoff_base_ms: 500,
            backoff_max_ms: 30_000,
            require_artifact_checksum: false,
        }
    }

    /// A job whose next attempt would be `next_attempt` is given up.
    pub fn should_dead_letter(&self, next_attempt: u32) -> (r: bool)
        ensures
            r == (next_attempt >= self.max_attempts),
    {
        next_attempt >= self.max_attempts
    }

    /// Milliseconds to wait before attempt `attempt`.
    pub fn backoff_ms(&self, attempt: u32) -> (r: u64)
        ensures
            r == backoff_spec(self.backoff_base_ms as nat, self.backoff_max_ms as nat, attempt as nat),
    {
        let max = self.backoff_max_ms;
        let e: u32 = if attempt == 0 { 0 } else { attempt - 1 };
        let mut v: u64 = self.backoff_base_ms;
        let mut k: u32 = 0;
        if v > max {
            proof {
                lemma_pow2_pos(e as nat);
                assert(v * pow2(e as nat) >= v) by (nonlinear_arith)
                    requires pow2(e as nat) >= 1;
            }
            return max;
        }
        assert(pow2(0) == 1);
        assert(v as nat == self.backoff_base_ms * pow2(0));
        while k < e
            invariant
                k <= e,
                v as nat == self.backoff_base_ms * pow2(k as nat),
                v <= max,
                max == self.backoff_max_ms,
                e == (if attempt == 0 { 0 } else { attempt - 1 }),
            decreases e - k,
        {
            if v > max / 2 {
                proof {
                    lemma_pow2_mono(k as nat + 1, e as nat);
                    assert(pow2(k as nat + 1) == 2 * pow2(k as nat));
                    assert(2 * v > max);
                    let b = self.backoff_base_ms as nat;
                    assert(b * pow2(e as nat) >= b * pow2(k as nat + 1)) by (nonlinear_arith)
                        requires pow2(e as nat) >= pow2(k as nat + 1);
                    assert(b * pow2(k as nat + 1) == 2 * (b * pow2(k as nat))) by (nonlinear_arith)
                        requires pow2(k as nat + 1) == 2 * pow2(k as nat);
                    assert(b * pow2(e as nat) > max);
                }
                return max;
            }
            proof {
                let b = self.backoff_base_ms as nat;
                assert(pow2(k as nat + 1) == 2 * pow2(k as nat));
                assert(b * pow2(k as nat + 1) == 2 * (b * pow2(k as nat))) by (nonlinear_arith)
                    requires pow2(k as nat + 1) == 2 * pow2(k as nat);
            }
            v = v * 2;
            k += 1;
        }
        v
    }
}

/// The wait before an attempt never exceeds the policy's maximum, and never shrinks as
/// attempts go on.
pub proof fn law_backoff_capped_and_growing(base: nat, max: nat, a: nat, b: nat)
    requires
        a <= b,
    ensures
        backoff_spec(base, max, a) <= max,
        backoff_spec(base, max, a) <= backoff_spec(base, max, b),
{
    let ea: nat = if a == 0 { 0 } else { (a - 1) as nat };
    let eb: nat = if b == 0 { 0 } else { (b - 1) as nat };
    lemma_pow2_mono(ea, eb);
    assert(base * pow2(ea) <= base * pow2(eb)) by (nonlinear_arith)
        requires pow2(ea) <= pow2(eb);
}

proof fn lemma_pow2_pos(e: nat)
    ensures
        pow2(e) >= 1,
    decreases e,
{
    if e > 0 {
        lemma_pow2_pos((e - 1) as nat);
    }
}

proof fn lemma_pow2_mono(a: nat, b: nat)
    requires
        a <= b,
    ensures
        pow2(a) <= pow2(b),
    decreases b,
{
    if a < b {
        lemma_pow2_mono(a, (b - 1) as nat);
        lemma_pow2_pos((b - 1) as nat);
    }
}

/// Connection settings of an S3-compatible object store.
#[derive(Debug)]
pub struct S3Config {
    pub endpoint: Option<String>,
    pub region: Option<String>,
    pub bucket: Option<String>,
    pub access_key: Option<String>,
    pub secret_key: Option<String>,
    pub path_style: bool,
}

impl S3Config {
    /// No store configured.
    pub fn empty() -> (r: Self)
        ensures
            r.endpoint is None,
            r.region is None,
            r.bucket is None,
            r.access_key is None,
            r.secret_key is None,
            !r.path_style,
    {
        S3Config {
            endpoint: None,
            region: None,
            bucket: None,
            access_key: None,
            secret_key: None,
            path_style: false,
        }
    }
}

/// Runtime configuration of the API server and its worker.
#[derive(Debug)]
pub struct ServerConfig {
    pub bind: String,
    pub auth_token: Option<String>,
    pub public_base: String,
    pub data_dir: String,
    pub database_url: Option<String>,
    pub redis_url: Option<String>,
    pub s3: S3Config,
    pub worker: WorkerReliabilityPolicy,
    pub inline_worker: bool,
    pub default_workspace: String,
    pub max_upload_bytes: u64,
    pub rate_limit_per_minute: u32,
}

pub fn default_true() -> (r: bool)
    ensures
        r,
{
    true
}

pub fn default_workspace() -> (r: String)
    ensures
        r@ == "default"@,
{
    string_of("default")
}

pub fn default_max_upload() -> (r: u64)
    ensures
        r == 512 * 1024 * 1024,
{
    512 * 1024 * 1024
}

pub fn default_rate_limit_per_minute() -> (r: u32)
    ensures
        r == 120,
{
    120
}

/// `base` joined with path `part` as on Unix: an absolute `part` (starting with `/`)
/// replaces `base`; a relative one follows it with one `/` between them.
pub open spec fn join_path(base: Seq<char>, part: Seq<char>) -> Seq<char> {
    if part.len() > 0 && part[0] == '/' {
        part
    } else if base.len() == 0 {
        part
    } else if base.last() == '/' {
        base + part
    } else {
        base + seq!['/'] + part
    }
}

/// Joins a directory and a path (`Path::join` on Unix).
pub fn join_path_exec(base: &String, part: &str) -> (r: String)
    ensures
        r@ == join_path(base@, part@),
{
    let pc = chars_of(part);
    if pc.len() > 0 && pc[0] == '/' {
        return string_of(part);
    }
    let mut out = chars_of_string(base);
    if out.len() > 0 && out[out.len() - 1] != '/' {
        out.push('/');
    }
    push_str(&mut out, part);
    string_from_chars(&out)
}

/// The data directory under a home directory, or `.imgforge-server` without one.
pub open spec fn data_dir_for(home: Option<Seq<char>>) -> Seq<char> {
    match home {
        Some(h) => join_path(join_path(h, ".imgforge"@), "server"@),
        None => ".imgforge-server"@,
    }
}

/// The default data directory, given the home directory (`HOME`, else `USERPROFILE`).
pub fn default_data_dir(home: Option<String>) -> (r: String)
    ensures
        r@ == data_dir_for(match home {
            Some(h) => Some(h@),
            None => None,
        }),
{
    match home {
        Some(h) => {
            let a = join_path_exec(&h, ".imgforge");
            join_path_exec(&a, "server")
        },
        None => string_of(".imgforge-server"),
    }
}

/// The value of the first pair whose name is `name` (an environment variable, a header).
pub open spec fn value_of(vars: Seq<(String, String)>, name: Seq<char>) -> Option<Seq<char>>
    decreases vars.len(),
{
    if vars.len() == 0 {
        None
    } else if vars[0].0@ == name {
        Some(vars[0].1@)
    } else {
        value_of(vars.drop_first(), name)
    }
}

/// The value under `a`, or else under `b`.
pub open spec fn value_of_either(vars: Seq<(String, String)>, a: Seq<char>, b: Seq<char>) -> Option<
    Seq<char>,
> {
    match value_of(vars, a) {
        Some(v) => Some(v),
        None => value_of(vars, b),
    }
}

pub fn lookup_value(vars: &Vec<(String, String)>, name: &str) -> (r: Option<Vec<char>>)
    ensures
        r matches Some(v) ==> value_of(vars@, name@) == Some(v@),
        r is None ==> value_of(vars@, name@) is None,
{
    let want = chars_of(name);
    let mut i: usize = 0;
    assert(vars@.subrange(0, vars@.len() as int) =~= vars@);
    while i < vars.len()
        invariant
            i <= vars.len(),
            want@ == name@,
            value_of(vars@, name@) == value_of(vars@.subrange(i as int, vars@.len() as int), name@),
        decreases vars.len() - i,
    {
        let k = chars_of_string(&vars[i].0);
        proof {
            let rest = vars@.subrange(i as int, vars@.len() as int);
            assert(rest[0] == vars@[i as int]);
            assert(rest.drop_first() =~= vars@.subrange(i + 1, vars@.len() as int));
        }
        if eq_vec(&k, &want) {
            return Some(chars_of_string(&vars[i].1));
        }
        i += 1;
    }
    None
}

pub fn lookup_value_either(vars: &Vec<(String, String)>, a: &str, b: &str) -> (r: Option<Vec<char>>)
    ensures
        r matches Some(v) ==> value_of_either(vars@, a@, b@) == Some(v@),
        r is None ==> value_of_either(vars@, a@, b@) is None,
{
    match lookup_value(vars, a) {
        Some(v) => Some(v),
        None => lookup_value(vars, b),
    }
}

/// An optional string that is set only when its value is not blank.
pub open spec fn non_blank(v: Option<Seq<char>>) -> Option<Seq<char>> {
    match v {
        Some(s) => if trim(s).len() > 0 { Some(s) } else { None },
        None => None,
    }
}

/// The public base URL as given, without trailing `/`, without a trailing `/objects` or
/// else `/v1/artifacts`.
pub open spec fn public_base_of(given: Seq<char>) -> Seq<char> {
    let t = strip_trailing(given, '/');
    match strip_suffix(t, "/objects"@) {
        Some(p) => p,
        None => match strip_suffix(t, "/v1/artifacts"@) {
            Some(p) => p,
            None => t,
        },
    }
}

/// Values that switch the inline worker off.
pub open spec fn is_off_word(v: Seq<char>) -> bool {
    v == "0"@ || v == "false"@ || v == "FALSE"@ || v == "no"@
}

/// Values that switch path-style addressing on.
pub open spec fn is_on_word(v: Seq<char>) -> bool {
    v == "1"@ || v == "true"@ || v == "TRUE"@ || v == "yes"@
}

pub open spec fn opt_view(o: Option<String>) -> Option<Seq<char>> {
    match o {
        Some(s) => Some(s@),
        None => None,
    }
}

/// A setting read from the variables, or `dflt` when they do not set it.
pub open spec fn or_default<T>(v: Option<T>, dflt: T) -> T {
    match v {
        Some(x) => x,
        None => dflt,
    }
}

/// An optional setting overridden by the variables when they set it.
pub open spec fn or_keep<T>(v: Option<T>, dflt: Option<T>) -> Option<T> {
    match v {
        Some(x) => Some(x),
        None => dflt,
    }
}

fn opt_string(v: Option<Vec<char>>) -> (r: Option<String>)
    ensures
        opt_view(r) == (match v {
            Some(c) => Some(c@),
            None => None,
        }),
{
    match v {
        Some(c) => Some(string_from_chars(&c)),
        None => None,
    }
}

fn non_blank_exec(v: Option<Vec<char>>) -> (r: Option<Vec<char>>)
    ensures
        (match r {
            Some(c) => Some(c@),
            None => None,
        }) == non_blank(match v {
            Some(c) => Some(c@),
            None => None,
        }),
{
    match v {
        Some(c) => {
            let t = trim_vec(&c);
            if t.len() > 0 {
                Some(c)
            } else {
                None
            }
        },
        None => None,
    }
}

fn is_off_word_exec(v: &Vec<char>) -> (r: bool)
    ensures
        r == is_off_word(v@),
{
    eq_str(v, "0") || eq_str(v, "false") || eq_str(v, "FALSE") || eq_str(v, "no")
}

fn is_on_word_exec(v: &Vec<char>) -> (r: bool)
    ensures
        r == is_on_word(v@),
{
    eq_str(v, "1") || eq_str(v, "true") || eq_str(v, "TRUE") || eq_str(v, "yes")
}

fn public_base_exec(given: &Vec<char>) -> (r: Vec<char>)
    ensures
        r@ == public_base_of(given@),
{
    let t = strip_trailing_vec(given, '/');
    let objects = chars_of("/objects");
    match strip_suffix_vec(&t, &objects) {
        Some(p) => p,
        None => {
            let artifacts = chars_of("/v1/artifacts");
            match strip_suffix_vec(&t, &artifacts) {
                Some(p) => p,
                None => t,
            }
        },
    }
}

impl ServerConfig {
    /// The defaults, with `data_dir` as data directory: listen on `127.0.0.1:8787`, public base
    /// `http://127.0.0.1:8787`, no token, no Postgres, Redis or S3, the default worker policy,
    /// an inline worker, workspace `default`, 512 MiB uploads, 120 requests a minute.
    pub fn default_in(data_dir: String) -> (r: Self)
        ensures
            r.bind@ == "127.0.0.1:8787"@,
            r.auth_token is None,
            r.public_base@ == "http://127.0.0.1:8787"@,
            r.data_dir == data_dir,
            r.database_url is None,
            r.redis_url is None,
            r.s3.endpoint is None && r.s3.region is None && r.s3.bucket is None,
            r.s3.access_key is None && r.s3.secret_key is None && !r.s3.path_style,
            r.worker.lease_secs == 60 && r.worker.max_attempts == 3,
            r.worker.backoff_base_ms == 500 && r.worker.backoff_max_ms == 30_000,
            !r.worker.require_artifact_checksum,
            r.inline_worker,
            r.default_workspace@ == "default"@,
            r.max_upload_bytes == 512 * 1024 * 1024,
            r.rate_limit_per_minute == 120,
    {
        ServerConfig {
            bind: string_of("127.0.0.1:8787"),
            auth_token: None,
            public_base: string_of("http://127.0.0.1:8787"),
            data_dir,
            database_url: None,
            redis_url: None,
            s3: S3Config::empty(),
            worker: WorkerReliabilityPolicy::default_policy(),
            inline_worker: default_true(),
            default_workspace: default_workspace(),
            max_upload_bytes: default_max_upload(),
            rate_limit_per_minute: default_rate_limit_per_minute(),
        }
    }

    pub fn objects_dir(&self) -> (r: String)
        ensures
            r@ == join_path(self.data_dir@, "objects"@),
    {
        join_path_exec(&self.data_dir, "objects")
    }

    pub fn uploads_dir(&self) -> (r: String)
        ensures
            r@ == join_path(self.data_dir@, "uploads"@),
    {
        join_path_exec(&self.data_dir, "uploads")
    }

    pub fn work_dir(&self) -> (r: String)
        ensures
            r@ == join_path(self.data_dir@, "work"@),
    {
        join_path_exec(&self.data_dir, "work")
    }

    pub fn outputs_dir(&self) -> (r: String)
        ensures
            r@ == join_path(self.data_dir@, "outputs"@),
    {
        join_path_exec(&self.data_dir, "outputs")
    }

    pub fn sqlite_path(&self) -> (r: String)
        ensures
            r@ == join_path(self.data_dir@, "meta.sqlite"@),
    {
        join_path_exec(&self.data_dir, "meta.sqlite")
    }

    pub open spec fn uses_postgres_spec(&self) -> bool {
        self.database_url matches Some(u) && starts_with(u@, "postgres"@)
    }

    pub open spec fn uses_redis_spec(&self) -> bool {
        self.redis_url matches Some(u) && trim(u@).len() > 0
    }

    pub open spec fn uses_s3_spec(&self) -> bool {
        &&& self.s3.bucket matches Some(b) && b@.len() > 0
        &&& self.s3.endpoint matches Some(e) && e@.len() > 0
    }

    /// The metadata store is Postgres: the database URL starts with `postgres`.
    pub fn uses_postgres(&self) -> (r: bool)
        ensures
            r == self.uses_postgres_spec(),
    {
        match &self.database_url {
            Some(u) => {
                let c = chars_of_string(u);
                let p = chars_of("postgres");
                starts_with_exec(&c, &p)
            },
            None => false,
        }
    }

    /// The queue is Redis: a non-blank Redis URL is set.
    pub fn uses_redis(&self) -> (r: bool)
        ensures
            r == self.uses_redis_spec(),
    {
        match &self.redis_url {
            Some(u) => {
                let c = chars_of_string(u);
                trim_vec(&c).len() > 0
            },
            None => false,
        }
    }

    /// Objects live in S3: both a bucket and an endpoint are set and non-empty.
    pub fn uses_s3(&self) -> (r: bool)
        ensures
            r == self.uses_s3_spec(),
    {
        let bucket = match &self.s3.bucket {
            Some(b) => !b.as_str().is_empty(),
            None => false,
        };
        let endpoint = match &self.s3.endpoint {
            Some(e) => !e.as_str().is_empty(),
            None => false,
        };
        bucket && endpoint
    }

    /// The base URL under which artifacts are served.
    pub fn object_store_public_base(&self) -> (r: String)
        ensures
            r@ == strip_trailing(self.public_base@, '/') + "/v1/artifacts"@,
    {
        let c = chars_of_string(&self.public_base);
        let mut out = strip_trailing_vec(&c, '/');
        push_str(&mut out, "/v1/artifacts");
        string_from_chars(&out)
    }

    /// `meta=<postgres|sqlite-fallback> queue=<redis-streams|memory-fallback>
    /// objects=<s3|disk-fallback>`.
    pub fn backend_summary(&self) -> (r: String)
        ensures
            r@ == "meta="@ + (if self.uses_postgres_spec() { "postgres"@ } else { "sqlite-fallback"@ })
                + " queue="@ + (if self.uses_redis_spec() { "redis-streams"@ } else { "memory-fallback"@ })
                + " objects="@ + (if self.uses_s3_spec() { "s3"@ } else { "disk-fallback"@ }),
    {
        let mut out: Vec<char> = Vec::new();
        push_str(&mut out, "meta=");
        if self.uses_postgres() {
            push_str(&mut out, "postgres");
        } else {
            push_str(&mut out, "sqlite-fallback");
        }
        push_str(&mut out, " queue=");
        if self.uses_redis() {
            push_str(&mut out, "redis-streams");
        } else {
            push_str(&mut out, "memory-fallback");
        }
        push_str(&mut out, " objects=");
        if self.uses_s3() {
            push_str(&mut out, "s3");
        } else {
            push_str(&mut out, "disk-fallback");
        }
        string_from_chars(&out)
    }

    /// The configuration that the environment variables `vars` give, over the defaults
    /// with `data_dir` as data directory. Each `IMGFORGE_*` setting overrides its default;
    /// blank tokens and URLs are ignored, numbers that do not parse keep the default.
    pub fn from_vars(vars: &Vec<(String, String)>, data_dir: String) -> (r: Self)
        ensures
            r.bind@ == or_default(value_of(vars@, "IMGFORGE_SERVER_BIND"@), "127.0.0.1:8787"@),
            opt_view(r.auth_token) == non_blank(value_of(vars@, "IMGFORGE_SERVER_TOKEN"@)),
            r.public_base@ == (match value_of_either(vars@, "IMGFORGE_PUBLIC_BASE"@, "IMGFORGE_OBJECT_BASE"@) {
                Some(b) => public_base_of(b),
                None => "http://127.0.0.1:8787"@,
            }),
            r.data_dir@ == or_default(value_of(vars@, "IMGFORGE_SERVER_DATA_DIR"@), data_dir@),
            opt_view(r.database_url) == non_blank(value_of_either(vars@, "IMGFORGE_DATABASE_URL"@, "DATABASE_URL"@)),
            opt_view(r.redis_url) == non_blank(value_of_either(vars@, "IMGFORGE_REDIS_URL"@, "REDIS_URL"@)),
            r.inline_worker == (match value_of(vars@, "IMGFORGE_INLINE_WORKER"@) {
                Some(v) => !is_off_word(v),
                None => true,
            }),
            r.default_workspace@ == or_default(value_of(vars@, "IMGFORGE_DEFAULT_WORKSPACE"@), "default"@),
            r.max_upload_bytes as nat == (match value_of(vars@, "IMGFORGE_MAX_UPLOAD_BYTES"@) {
                Some(v) => or_default(parse_unsigned(v, u64::MAX as nat), 512 * 1024 * 1024),
                None => 512 * 1024 * 1024,
            }),
            r.rate_limit_per_minute as nat == (match value_of(vars@, "IMGFORGE_RATE_LIMIT_PER_MINUTE"@) {
                Some(v) => or_default(parse_unsigned(v, u32::MAX as nat), 120),
                None => 120,
            }),
            opt_view(r.s3.endpoint) == value_of(vars@, "IMGFORGE_S3_ENDPOINT"@),
            opt_view(r.s3.region) == value_of(vars@, "IMGFORGE_S3_REGION"@),
            opt_view(r.s3.bucket) == value_of(vars@, "IMGFORGE_S3_BUCKET"@),
            opt_view(r.s3.access_key) == value_of_either(vars@, "IMGFORGE_S3_ACCESS_KEY"@, "AWS_ACCESS_KEY_ID"@),
            opt_view(r.s3.secret_key) == value_of_either(vars@, "IMGFORGE_S3_SECRET_KEY"@, "AWS_SECRET_ACCESS_KEY"@),
            r.s3.path_style == (match value_of(vars@, "IMGFORGE_S3_PATH_STYLE"@) {
                Some(v) => is_on_word(v),
                None => false,
            }),
            r.worker == WorkerReliabilityPolicy::default_policy_spec(),
    {
        let mut config = ServerConfig::default_in(data_dir);
        if let Some(bind) = lookup_value(vars, "IMGFORGE_SERVER_BIND") {
            config.bind = string_from_chars(&bind);
        }
        config.auth_token = opt_string(non_blank_exec(lookup_value(vars, "IMGFORGE_SERVER_TOKEN")));
        if let Some(base) = lookup_value_either(vars, "IMGFORGE_PUBLIC_BASE", "IMGFORGE_OBJECT_BASE") {
            config.public_base = string_from_chars(&public_base_exec(&base));
        }
        if let Some(dir) = lookup_value(vars, "IMGFORGE_SERVER_DATA_DIR") {
            config.data_dir = string_from_chars(&dir);
        }
        config.database_url = opt_string(
            non_blank_exec(lookup_value_either(vars, "IMGFORGE_DATABASE_URL", "DATABASE_URL")),
        );
        config.redis_url = opt_string(
            non_blank_exec(lookup_value_either(vars, "IMGFORGE_REDIS_URL", "REDIS_URL")),
        );
        if let Some(v) = lookup_value(vars, "IMGFORGE_INLINE_WORKER") {
            config.inline_worker = !is_off_word_exec(&v);
        }
        if let Some(ws) = lookup_value(vars, "IMGFORGE_DEFAULT_WORKSPACE") {
            config.default_workspace = string_from_chars(&ws);
        }
        if let Some(n) = lookup_value(vars, "IMGFORGE_MAX_UPLOAD_BYTES") {
            if let Some(v) = parse_unsigned_vec(&n, u64::MAX) {
                config.max_upload_bytes = v;
            }
        }
        if let Some(n) = lookup_value(vars, "IMGFORGE_RATE_LIMIT_PER_MINUTE") {
            if let Some(v) = parse_unsigned_vec(&n, 0xffff_ffff) {
                config.rate_limit_per_minute = v as u32;
            }
        }
        config.s3.endpoint = opt_string(lookup_value(vars, "IMGFORGE_S3_ENDPOINT"));
        config.s3.region = opt_string(lookup_value(vars, "IMGFORGE_S3_REGION"));
        config.s3.bucket = opt_string(lookup_value(vars, "IMGFORGE_S3_BUCKET"));
        config.s3.access_key = opt_string(
            lookup_value_either(vars, "IMGFORGE_S3_ACCESS_KEY", "AWS_ACCESS_KEY_ID"),
        );
        config.s3.secret_key = opt_string(
            lookup_value_either(vars, "IMGFORGE_S3_SECRET_KEY", "AWS_SECRET_ACCESS_KEY"),
        );
        if let Some(v) = lookup_value(vars, "IMGFORGE_S3_PATH_STYLE") {
            config.s3.path_style = is_on_word_exec(&v);
        }
        proof {
            reveal_strlit("127.0.0.1:8787");
            reveal_strlit("http://127.0.0.1:8787");
            reveal_strlit("default");
        }
        config
    }
}

impl WorkerReliabilityPolicy {
    pub open spec fn default_policy_spec() -> Self {
        WorkerReliabilityPolicy {
            lease_secs: 60,
            max_attempts: 3,
            backoff_base_ms: 500,
            backoff_max_ms: 30_000,
            require_artifact_checksum: false,
        }
    }
}

} // verus!
