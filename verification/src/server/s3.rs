//! S3-compatible object storage: AWS Signature Version 4 for signed requests and
//! pre-signed URLs, over path-style addressing. Sending the requests is left to the caller.
use vstd::prelude::*;
use vstd::utf8::encode_utf8;

use crate::clock::now_unix;
use crate::server::config::S3Config;
use crate::server::digest::{amz_date_of, 
    amz_date_from_unix, hex_encode, hex_lower, hmac_sha256, hmac_sha256_of, percent_encoded,
    sha256, sha256_of, url_encode,
};
use crate::server::error::StoreError;
use crate::text::{
    chars_of, chars_of_string, decimal, eq_str, push_all, push_decimal, push_str, slice_vec,
    starts_with, starts_with_exec, string_from_chars, string_of, strip_leading, strip_leading_vec,
    strip_trailing, strip_trailing_vec,
};

verus! {

/// `s` without any number of leading copies of `pat` (`str::trim_start_matches`).
pub open spec fn trim_start_str(s: Seq<char>, pat: Seq<char>) -> Seq<char>
    decreases s.len(),
{
    if pat.len() > 0 && starts_with(s, pat) {
        trim_start_str(s.subrange(pat.len() as int, s.len() as int), pat)
    } else {
        s
    }
}

fn trim_start_str_vec(s: &Vec<char>, pat: &Vec<char>) -> (r: Vec<char>)
    ensures
        r@ == trim_start_str(s@, pat@),
{
    let mut a: usize = 0;
    let mut done = pat.len() == 0;
    assert(s@.subrange(0, s@.len() as int) =~= s@);
    while !done
        invariant
            a <= s.len(),
            pat@.len() == 0 ==> done,
            trim_start_str(s@, pat@) == trim_start_str(s@.subrange(a as int, s@.len() as int), pat@),
            done ==> trim_start_str(s@.subrange(a as int, s@.len() as int), pat@) == s@.subrange(a as int, s@.len() as int),
        decreases s.len() - a, if done { 0int } else { 1int },
    {
        let rest = slice_vec(s, a, s.len());
        if starts_with_exec(&rest, pat) {
            proof {
                assert(rest@.subrange(pat@.len() as int, rest@.len() as int) =~= s@.subrange(a + pat@.len(), s@.len() as int));
            }
            a = a + pat.len();
        } else {
            done = true;
        }
    }
    slice_vec(s, a, s.len())
}

/// The headers covered by a request signature.
pub open spec fn signed_headers() -> Seq<char> {
    "host;x-amz-content-sha256;x-amz-date"@
}

/// `<date>/<region>/s3/aws4_request`.
pub open spec fn credential_scope(date: Seq<char>, region: Seq<char>) -> Seq<char> {
    date + "/"@ + region + "/s3/aws4_request"@
}

/// The SigV4 signing key: HMAC chained over the date, region, service and
/// `aws4_request`, starting from `AWS4<secret>`.
pub open spec fn signing_key_of(secret: Seq<char>, date: Seq<char>, region: Seq<char>, service: Seq<char>) -> Seq<u8> {
    let k_date = hmac_sha256_of(encode_utf8("AWS4"@ + secret), encode_utf8(date));
    let k_region = hmac_sha256_of(k_date, encode_utf8(region));
    let k_service = hmac_sha256_of(k_region, encode_utf8(service));
    hmac_sha256_of(k_service, encode_utf8("aws4_request"@))
}

/// The string that is signed: algorithm, time stamp, scope and the hash of the canonical
/// request.
pub open spec fn string_to_sign(amz_date: Seq<char>, scope: Seq<char>, canonical: Seq<char>) -> Seq<char> {
    "AWS4-HMAC-SHA256\n"@ + amz_date + "\n"@ + scope + "\n"@ + hex_lower(sha256_of(encode_utf8(canonical)))
}

/// The hex signature of `to_sign` with the key of `secret`, `date` and `region`.
pub open spec fn signature_of(secret: Seq<char>, date: Seq<char>, region: Seq<char>, to_sign: Seq<char>) -> Seq<char> {
    hex_lower(hmac_sha256_of(signing_key_of(secret, date, region, "s3"@), encode_utf8(to_sign)))
}

fn bytes_of(v: &Vec<char>) -> (r: Vec<u8>)
    ensures
        r@ == encode_utf8(v@),
{
    let s = string_from_chars(v);
    let b = s.as_str().as_bytes();
    let mut out: Vec<u8> = Vec::new();
    let mut i: usize = 0;
    while i < b.len()
        invariant
            i <= b@.len(),
            b@ == encode_utf8(v@),
            out@ == b@.subrange(0, i as int),
        decreases b@.len() - i,
    {
        out.push(b[i]);
        i += 1;
        assert(out@ =~= b@.subrange(0, i as int));
    }
    assert(b@.subrange(0, b@.len() as int) =~= b@);
    out
}

/// Derives the SigV4 signing key for `service` in `region` on `date`.
pub fn derive_signing_key(secret: &str, date: &str, region: &str, service: &str) -> (r: Vec<u8>)
    ensures
        r@ == signing_key_of(secret@, date@, region@, service@),
{
    let mut k: Vec<char> = Vec::new();
    push_str(&mut k, "AWS4");
    push_str(&mut k, secret);
    let kb = bytes_of(&k);
    let k_date = hmac_sha256(kb.as_slice(), date.as_bytes());
    let k_region = hmac_sha256(k_date.as_slice(), region.as_bytes());
    let k_service = hmac_sha256(k_region.as_slice(), service.as_bytes());
    let tail = chars_of("aws4_request");
    let tb = bytes_of(&tail);
    hmac_sha256(k_service.as_slice(), tb.as_slice())
}

/// A time stamp that request signing can use: its first eight characters (the date) are ASCII.
pub open spec fn usable_amz_date(a: Seq<char>) -> bool {
    a.len() >= 8 && forall|i: int| 0 <= i < 8 ==> (#[trigger] a[i] as u32) < 128
}

/// The connection of an S3-compatible store.
#[derive(Debug)]
pub struct S3ObjectStore {
    pub endpoint: String,
    pub region: String,
    pub bucket: String,
    pub access_key: String,
    pub secret_key: String,
    pub path_style: bool,
    pub public_base: String,
}

/// A request ready to send: where, and the headers that authenticate it.
#[derive(Debug)]
pub struct SignedRequest {
    pub method: String,
    pub url: String,
    pub host: String,
    pub payload_hash: String,
    pub amz_date: String,
    pub authorization: String,
    pub content_type: Option<String>,
}

pub open spec fn opt_view(o: Option<String>) -> Option<Seq<char>> {
    match o {
        Some(s) => Some(s@),
        None => None,
    }
}

/// The methods that the store sends.
pub open spec fn supported_method(m: Seq<char>) -> bool {
    m == "PUT"@ || m == "GET"@ || m == "DELETE"@ || m == "HEAD"@
}

impl S3ObjectStore {
    /// The host of the endpoint, with the bucket in front unless addressing is path-style.
    pub open spec fn host_spec(&self) -> Seq<char> {
        let w = trim_start_str(trim_start_str(self.endpoint@, "https://"@), "http://"@);
        if self.path_style {
            w
        } else {
            self.bucket@ + "."@ + w
        }
    }

    /// `<endpoint>/<bucket>/<key without leading />`.
    pub open spec fn object_url_spec(&self, key: Seq<char>) -> Seq<char> {
        self.endpoint@ + "/"@ + self.bucket@ + "/"@ + strip_leading(key, '/')
    }

    /// The path that a signed request names.
    pub open spec fn canonical_uri_spec(&self, key: Seq<char>) -> Seq<char> {
        if self.path_style {
            "/"@ + self.bucket@ + "/"@ + strip_leading(key, '/')
        } else {
            "/"@ + strip_leading(key, '/')
        }
    }

    /// The canonical request of a signed request.
    pub open spec fn canonical_request_spec(&self, method: Seq<char>, key: Seq<char>, payload_hash: Seq<char>, amz_date: Seq<char>) -> Seq<char> {
        method + "\n"@ + self.canonical_uri_spec(key) + "\n\n"@ + "host:"@ + self.host_spec()
            + "\nx-amz-content-sha256:"@ + payload_hash + "\nx-amz-date:"@ + amz_date + "\n"@
            + "\n"@ + signed_headers() + "\n"@ + payload_hash
    }

    /// The `Authorization` header of a signed request.
    pub open spec fn authorization_spec(&self, method: Seq<char>, key: Seq<char>, body: Seq<u8>, amz_date: Seq<char>) -> Seq<char> {
        let date = amz_date.subrange(0, 8);
        let scope = credential_scope(date, self.region@);
        let payload_hash = hex_lower(sha256_of(body));
        let canonical = self.canonical_request_spec(method, key, payload_hash, amz_date);
        "AWS4-HMAC-SHA256 Credential="@ + self.access_key@ + "/"@ + scope + ", SignedHeaders="@
            + signed_headers() + ", Signature="@
            + signature_of(self.secret_key@, date, self.region@, string_to_sign(amz_date, scope, canonical))
    }

    /// The query string of a pre-signed URL.
    pub open spec fn presign_query_spec(&self, ttl_secs: u64, amz_date: Seq<char>) -> Seq<char> {
        let scope = credential_scope(amz_date.subrange(0, 8), self.region@);
        let credential = self.access_key@ + "/"@ + scope;
        "X-Amz-Algorithm=AWS4-HMAC-SHA256&X-Amz-Credential="@ + percent_encoded(encode_utf8(credential))
            + "&X-Amz-Date="@ + amz_date + "&X-Amz-Expires="@
            + decimal(if ttl_secs < 1 { 1 } else { ttl_secs as nat }) + "&X-Amz-SignedHeaders=host"@
    }

    /// A pre-signed URL for `method` on `key`, valid `ttl_secs` seconds (at least one) from
    /// `amz_date`.
    pub open spec fn presign_spec(&self, method: Seq<char>, key: Seq<char>, ttl_secs: u64, amz_date: Seq<char>) -> Seq<char> {
        let date = amz_date.subrange(0, 8);
        let scope = credential_scope(date, self.region@);
        let uri = "/"@ + self.bucket@ + "/"@ + strip_leading(key, '/');
        let query = self.presign_query_spec(ttl_secs, amz_date);
        let canonical = method + "\n"@ + uri + "\n"@ + query + "\nhost:"@ + self.host_spec()
            + "\n\nhost\nUNSIGNED-PAYLOAD"@;
        self.endpoint@ + uri + "?"@ + query + "&X-Amz-Signature="@
            + signature_of(self.secret_key@, date, self.region@, string_to_sign(amz_date, scope, canonical))
    }

    /// The store that `s3` describes: endpoint (without trailing `/`), bucket and both keys
    /// are required, in that order; the region defaults to `us-east-1`.
    pub fn from_config(s3: &S3Config, public_base: String) -> (r: Result<Self, String>)
        ensures
            r is Ok <==> (s3.endpoint is Some && s3.bucket is Some && s3.access_key is Some
                && s3.secret_key is Some),
            r matches Err(m) ==> m@ == (if s3.endpoint is None {
                "s3.endpoint required"@
            } else if s3.bucket is None {
                "s3.bucket required"@
            } else if s3.access_key is None {
                "s3.access_key required"@
            } else {
                "s3.secret_key required"@
            }),
            r matches Ok(st) ==> {
                &&& st.endpoint@ == strip_trailing(s3.endpoint->0@, '/')
                &&& st.bucket == s3.bucket->0
                &&& st.access_key == s3.access_key->0
                &&& st.secret_key == s3.secret_key->0
                &&& st.region@ == (match s3.region {
                    Some(g) => g@,
                    None => "us-east-1"@,
                })
                &&& st.path_style == s3.path_style
                &&& st.public_base == public_base
            },
    {
        let endpoint = match &s3.endpoint {
            Some(e) => e.clone(),
            None => return Err(string_of("s3.endpoint required")),
        };
        let bucket = match &s3.bucket {
            Some(b) => b.clone(),
            None => return Err(string_of("s3.bucket required")),
        };
        let access_key = match &s3.access_key {
            Some(a) => a.clone(),
            None => return Err(string_of("s3.access_key required")),
        };
        let secret_key = match &s3.secret_key {
            Some(k) => k.clone(),
            None => return Err(string_of("s3.secret_key required")),
        };
        let region = match &s3.region {
            Some(g) => g.clone(),
            None => string_of("us-east-1"),
        };
        let ec = chars_of_string(&endpoint);
        let endpoint = string_from_chars(&strip_trailing_vec(&ec, '/'));
        Ok(S3ObjectStore {
            endpoint,
            region,
            bucket,
            access_key,
            secret_key,
            path_style: s3.path_style,
            public_base,
        })
    }

    pub fn object_url(&self, key: &str) -> (r: String)
        ensures
            r@ == self.object_url_spec(key@),
    {
        let mut out = chars_of_string(&self.endpoint);
        push_str(&mut out, "/");
        let bc = chars_of_string(&self.bucket);
        push_all(&mut out, &bc);
        push_str(&mut out, "/");
        let kc = chars_of(key);
        let kp = strip_leading_vec(&kc, '/');
        push_all(&mut out, &kp);
        string_from_chars(&out)
    }

    pub fn host_header(&self) -> (r: String)
        ensures
            r@ == self.host_spec(),
    {
        let ec = chars_of_string(&self.endpoint);
        let https = chars_of("https://");
        let http = chars_of("http://");
        let w = trim_start_str_vec(&trim_start_str_vec(&ec, &https), &http);
        if self.path_style {
            string_from_chars(&w)
        } else {
            let mut out = chars_of_string(&self.bucket);
            push_str(&mut out, ".");
            push_all(&mut out, &w);
            string_from_chars(&out)
        }
    }

    fn canonical_uri(&self, key: &str) -> (r: Vec<char>)
        ensures
            r@ == self.canonical_uri_spec(key@),
    {
        let mut out: Vec<char> = Vec::new();
        push_str(&mut out, "/");
        if self.path_style {
            let bc = chars_of_string(&self.bucket);
            push_all(&mut out, &bc);
            push_str(&mut out, "/");
        }
        let kc = chars_of(key);
        let kp = strip_leading_vec(&kc, '/');
        push_all(&mut out, &kp);
        out
    }

    /// Signs `method key` with `body` at `amz_date`: the URL, host, payload hash and
    /// `Authorization` header of the request. Methods other than PUT, GET, DELETE and HEAD
    /// are refused.
    pub fn sign_request(&self, method: &str, key: &str, body: &[u8], content_type: Option<&str>, amz_date: &str) -> (r: Result<SignedRequest, StoreError>)
        requires
            usable_amz_date(amz_date@),
        ensures
            r is Err <==> !supported_method(method@),
            r matches Err(e) ==> e matches StoreError::Internal(m) && m@ == "unsupported method "@ + method@,
            r matches Ok(q) ==> {
                &&& q.method@ == method@
                &&& q.url@ == self.object_url_spec(key@)
                &&& q.host@ == self.host_spec()
                &&& q.payload_hash@ == hex_lower(sha256_of(body@))
                &&& q.amz_date@ == amz_date@
                &&& q.authorization@ == self.authorization_spec(method@, key@, body@, amz_date@)
                &&& opt_view(q.content_type) == (match content_type {
                    Some(c) => Some(c@),
                    None => None,
                })
            },
    {
        let mc = chars_of(method);
        if !(eq_str(&mc, "PUT") || eq_str(&mc, "GET") || eq_str(&mc, "DELETE") || eq_str(&mc, "HEAD")) {
            let mut m: Vec<char> = Vec::new();
            push_str(&mut m, "unsupported method ");
            push_all(&mut m, &mc);
            return Err(StoreError::Internal(string_from_chars(&m)));
        }
        let url = self.object_url(key);
        let host = self.host_header();
        let ac = chars_of(amz_date);
        let date = slice_vec(&ac, 0, 8);
        let payload_hash = hex_encode(sha256(body).as_slice());
        let ph = chars_of_string(&payload_hash);
        let hc = chars_of_string(&host);
        let mut canonical: Vec<char> = Vec::new();
        push_all(&mut canonical, &mc);
        push_str(&mut canonical, "\n");
        let uri = self.canonical_uri(key);
        push_all(&mut canonical, &uri);
        push_str(&mut canonical, "\n\n");
        push_str(&mut canonical, "host:");
        push_all(&mut canonical, &hc);
        push_str(&mut canonical, "\nx-amz-content-sha256:");
        push_all(&mut canonical, &ph);
        push_str(&mut canonical, "\nx-amz-date:");
        push_all(&mut canonical, &ac);
        push_str(&mut canonical, "\n");
        push_str(&mut canonical, "\n");
        push_str(&mut canonical, "host;x-amz-content-sha256;x-amz-date");
        push_str(&mut canonical, "\n");
        push_all(&mut canonical, &ph);
        let scope = self.scope(&date);
        let sig = self.signature(&date, &ac, &scope, &canonical);
        let mut auth: Vec<char> = Vec::new();
        push_str(&mut auth, "AWS4-HMAC-SHA256 Credential=");
        let akc = chars_of_string(&self.access_key);
        push_all(&mut auth, &akc);
        push_str(&mut auth, "/");
        push_all(&mut auth, &scope);
        push_str(&mut auth, ", SignedHeaders=");
        push_str(&mut auth, "host;x-amz-content-sha256;x-amz-date");
        push_str(&mut auth, ", Signature=");
        push_all(&mut auth, &sig);
        proof {
            assert(date@ =~= amz_date@.subrange(0, 8));
            assert(canonical@ =~= self.canonical_request_spec(method@, key@, ph@, amz_date@));
        }
        let ct = match content_type {
            Some(c) => Some(string_of(c)),
            None => None,
        };
        Ok(SignedRequest {
            method: string_of(method),
            url,
            host,
            payload_hash,
            amz_date: string_of(amz_date),
            authorization: string_from_chars(&auth),
            content_type: ct,
        })
    }

    fn scope(&self, date: &Vec<char>) -> (r: Vec<char>)
        ensures
            r@ == credential_scope(date@, self.region@),
    {
        let mut scope: Vec<char> = Vec::new();
        push_all(&mut scope, date);
        push_str(&mut scope, "/");
        let rc = chars_of_string(&self.region);
        push_all(&mut scope, &rc);
        push_str(&mut scope, "/s3/aws4_request");
        scope
    }

    fn signature(&self, date: &Vec<char>, amz_date: &Vec<char>, scope: &Vec<char>, canonical: &Vec<char>) -> (r: Vec<char>)
        ensures
            r@ == signature_of(self.secret_key@, date@, self.region@, string_to_sign(amz_date@, scope@, canonical@)),
    {
        let cb = bytes_of(canonical);
        let hashed = hex_encode(sha256(cb.as_slice()).as_slice());
        let mut to_sign: Vec<char> = Vec::new();
        push_str(&mut to_sign, "AWS4-HMAC-SHA256\n");
        push_all(&mut to_sign, amz_date);
        push_str(&mut to_sign, "\n");
        push_all(&mut to_sign, scope);
        push_str(&mut to_sign, "\n");
        let hh = chars_of_string(&hashed);
        push_all(&mut to_sign, &hh);
        let ds = string_from_chars(date);
        let key = derive_signing_key(self.secret_key.as_str(), ds.as_str(), self.region.as_str(), "s3");
        let tb = bytes_of(&to_sign);
        let mac = hmac_sha256(key.as_slice(), tb.as_slice());
        let sig = hex_encode(mac.as_slice());
        proof {
            assert(to_sign@ =~= string_to_sign(amz_date@, scope@, canonical@));
        }
        chars_of_string(&sig)
    }

    /// A pre-signed URL for `method` on `key` at `amz_date`, valid `ttl_secs` seconds.
    pub fn presign(&self, method: &str, key: &str, ttl_secs: u64, amz_date: &str) -> (r: String)
        requires
            usable_amz_date(amz_date@),
        ensures
            r@ == self.presign_spec(method@, key@, ttl_secs, amz_date@),
    {
        let ac = chars_of(amz_date);
        let date = slice_vec(&ac, 0, 8);
        let scope = self.scope(&date);
        let mut credential = chars_of_string(&self.access_key);
        push_str(&mut credential, "/");
        push_all(&mut credential, &scope);
        let cs = string_from_chars(&credential);
        let enc = url_encode(cs.as_str());
        let mut query: Vec<char> = Vec::new();
        push_str(&mut query, "X-Amz-Algorithm=AWS4-HMAC-SHA256&X-Amz-Credential=");
        let ec = chars_of_string(&enc);
        push_all(&mut query, &ec);
        push_str(&mut query, "&X-Amz-Date=");
        push_all(&mut query, &ac);
        push_str(&mut query, "&X-Amz-Expires=");
        let ttl: u64 = if ttl_secs < 1 { 1 } else { ttl_secs };
        push_decimal(&mut query, ttl);
        push_str(&mut query, "&X-Amz-SignedHeaders=host");
        let mut uri: Vec<char> = Vec::new();
        push_str(&mut uri, "/");
        let bc = chars_of_string(&self.bucket);
        push_all(&mut uri, &bc);
        push_str(&mut uri, "/");
        let kc = chars_of(key);
        let kp = strip_leading_vec(&kc, '/');
        push_all(&mut uri, &kp);
        let host = self.host_header();
        let hc = chars_of_string(&host);
        let mut canonical = chars_of(method);
        push_str(&mut canonical, "\n");
        push_all(&mut canonical, &uri);
        push_str(&mut canonical, "\n");
        push_all(&mut canonical, &query);
        push_str(&mut canonical, "\nhost:");
        push_all(&mut canonical, &hc);
        push_str(&mut canonical, "\n\nhost\nUNSIGNED-PAYLOAD");
        let sig = self.signature(&date, &ac, &scope, &canonical);
        let mut out = chars_of_string(&self.endpoint);
        push_all(&mut out, &uri);
        push_str(&mut out, "?");
        push_all(&mut out, &query);
        push_str(&mut out, "&X-Amz-Signature=");
        push_all(&mut out, &sig);
        proof {
            assert(date@ =~= amz_date@.subrange(0, 8));
            assert(credential@ =~= self.access_key@ + "/"@ + credential_scope(date@, self.region@));
            assert(query@ =~= self.presign_query_spec(ttl_secs, amz_date@));
        }
        string_from_chars(&out)
    }

    /// A pre-signed upload URL, valid `ttl_secs` seconds from now: the URL that
    /// [`Self::presign`] gives for the stamp of the current time. It never fails.
    pub fn presign_put(&self, key: &str, ttl_secs: u64) -> (r: Result<String, StoreError>)
        ensures
            r matches Ok(u) && exists|t: u64| u@ == self.presign_spec("PUT"@, key@, ttl_secs, #[trigger] amz_date_of(t)),
    {
        let d = amz_date_now();
        let u = self.presign("PUT", key, ttl_secs, d.as_str());
        Ok(u)
    }

    /// A pre-signed download URL, valid `ttl_secs` seconds from now: the URL that
    /// [`Self::presign`] gives for the stamp of the current time. It never fails.
    pub fn presign_get(&self, key: &str, ttl_secs: u64) -> (r: Result<String, StoreError>)
        ensures
            r matches Ok(u) && exists|t: u64| u@ == self.presign_spec("GET"@, key@, ttl_secs, #[trigger] amz_date_of(t)),
    {
        let d = amz_date_now();
        let u = self.presign("GET", key, ttl_secs, d.as_str());
        Ok(u)
    }
}

/// A pre-signed URL is signed for its own method: the URLs for any two methods on the same
/// key, lifetime and stamp share everything before the signature, and each signature is
/// the SigV4 signature (for the stamp's date and the store's region) of a canonical
/// request whose first line is that URL's method, the lines after it being the same.
pub proof fn law_presign_signs_its_method(s: S3ObjectStore, key: Seq<char>, ttl_secs: u64, amz_date: Seq<char>) -> (parts: (Seq<char>, Seq<char>))
    ensures
        forall|m: Seq<char>| #[trigger] s.presign_spec(m, key, ttl_secs, amz_date) == parts.0 + signature_of(
            s.secret_key@,
            amz_date.subrange(0, 8),
            s.region@,
            string_to_sign(amz_date, credential_scope(amz_date.subrange(0, 8), s.region@), m + "\n"@ + parts.1),
        ),
{
    let uri = "/"@ + s.bucket@ + "/"@ + strip_leading(key, '/');
    let query = s.presign_query_spec(ttl_secs, amz_date);
    let prefix = s.endpoint@ + uri + "?"@ + query + "&X-Amz-Signature="@;
    let rest = uri + "\n"@ + query + "\nhost:"@ + s.host_spec() + "\n\nhost\nUNSIGNED-PAYLOAD"@;
    assert forall|m: Seq<char>| #[trigger] s.presign_spec(m, key, ttl_secs, amz_date) == prefix + signature_of(
        s.secret_key@,
        amz_date.subrange(0, 8),
        s.region@,
        string_to_sign(amz_date, credential_scope(amz_date.subrange(0, 8), s.region@), m + "\n"@ + rest),
    ) by {
        let canonical = m + "\n"@ + uri + "\n"@ + query + "\nhost:"@ + s.host_spec() + "\n\nhost\nUNSIGNED-PAYLOAD"@;
        assert(canonical =~= m + "\n"@ + rest);
    }
    (prefix, rest)
}

/// A signed request is signed for its own method: the `Authorization` headers for any
/// two methods on the same key, body and stamp differ only in the signature, which is
/// the SigV4 signature of a canonical request whose first line is that request's method,
/// the lines after it being the same.
pub proof fn law_authorization_signs_its_method(s: S3ObjectStore, key: Seq<char>, body: Seq<u8>, amz_date: Seq<char>) -> (parts: (Seq<char>, Seq<char>))
    ensures
        forall|m: Seq<char>| #[trigger] s.authorization_spec(m, key, body, amz_date) == parts.0 + signature_of(
            s.secret_key@,
            amz_date.subrange(0, 8),
            s.region@,
            string_to_sign(amz_date, credential_scope(amz_date.subrange(0, 8), s.region@), m + "\n"@ + parts.1),
        ),
{
    let date = amz_date.subrange(0, 8);
    let scope = credential_scope(date, s.region@);
    let ph = hex_lower(sha256_of(body));
    let prefix = "AWS4-HMAC-SHA256 Credential="@ + s.access_key@ + "/"@ + scope + ", SignedHeaders="@
        + signed_headers() + ", Signature="@;
    let rest = s.canonical_uri_spec(key) + "\n\n"@ + "host:"@ + s.host_spec() + "\nx-amz-content-sha256:"@ + ph
        + "\nx-amz-date:"@ + amz_date + "\n"@ + "\n"@ + signed_headers() + "\n"@ + ph;
    assert forall|m: Seq<char>| #[trigger] s.authorization_spec(m, key, body, amz_date) == prefix + signature_of(
        s.secret_key@,
        date,
        s.region@,
        string_to_sign(amz_date, scope, m + "\n"@ + rest),
    ) by {
        assert(s.canonical_request_spec(m, key, ph, amz_date) =~= m + "\n"@ + rest);
    }
    (prefix, rest)
}

/// The time stamp of the current time, `YYYYMMDD'T'HHMMSS'Z'` in UTC.
pub fn amz_date_now() -> (r: String)
    ensures
        usable_amz_date(r@),
        exists|t: u64| r@ == #[trigger] amz_date_of(t),
{
    let t = now_unix();
    amz_date_from_unix(t)
}

} // verus!
