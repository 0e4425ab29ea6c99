//! Bearer-token authorisation and workspace checks of API requests.
//!
//! Headers are given as `(name, value)` pairs with lower-case names, in the order in which
//! the request carries them; a lookup sees the first value under a name.
use vstd::prelude::*;

use crate::server::api::request_id_from_headers;
use crate::server::config::{lookup_value, value_of, ServerConfig};
use crate::server::error::{ApiError, StoreError};
use crate::text::{
    chars_of, chars_of_string, eq_vec, push_all, push_str, string_from_chars, string_of,
    strip_prefix, strip_prefix_vec, trim, trim_vec,
};

verus! {

pub const WORKSPACE_HEADER: &'static str = "x-imgforge-workspace";

/// Who is calling and in which workspace.
#[derive(Debug)]
pub struct AuthContext {
    pub token_present: bool,
    pub workspace_id: String,
    pub actor: Option<String>,
}

/// The token of an `Authorization: Bearer <token>` value, if any.
pub open spec fn bearer_of(value: Seq<char>) -> Option<Seq<char>> {
    let t = trim(value);
    let rest = match strip_prefix(t, "Bearer "@) {
        Some(r) => Some(r),
        None => strip_prefix(t, "bearer "@),
    };
    match rest {
        Some(r) => if trim(r).len() > 0 { Some(trim(r)) } else { None },
        None => None,
    }
}

/// The bearer token that the headers carry.
pub open spec fn bearer_in(headers: Seq<(String, String)>) -> Option<Seq<char>> {
    match value_of(headers, "authorization"@) {
        Some(v) => bearer_of(v),
        None => None,
    }
}

pub fn extract_bearer(headers: &Vec<(String, String)>) -> (r: Option<String>)
    ensures
        r matches Some(t) ==> bearer_in(headers@) == Some(t@),
        r is None ==> bearer_in(headers@) is None,
{
    let value = match lookup_value(headers, "authorization") {
        Some(v) => v,
        None => return None,
    };
    let t = trim_vec(&value);
    let upper = chars_of("Bearer ");
    let rest = match strip_prefix_vec(&t, &upper) {
        Some(r) => Some(r),
        None => {
            let lower = chars_of("bearer ");
            strip_prefix_vec(&t, &lower)
        },
    };
    match rest {
        Some(r) => {
            let token = trim_vec(&r);
            if token.len() > 0 {
                Some(string_from_chars(&token))
            } else {
                None
            }
        },
        None => None,
    }
}

/// The workspace that a request names, or the configured default.
pub open spec fn workspace_in(headers: Seq<(String, String)>, dflt: Seq<char>) -> Seq<char> {
    match value_of(headers, "x-imgforge-workspace"@) {
        Some(v) => if trim(v).len() > 0 { trim(v) } else { dflt },
        None => dflt,
    }
}

/// A request is refused when a token is configured and the request does not carry it.
pub open spec fn refused(expected: Option<String>, headers: Seq<(String, String)>) -> bool {
    expected matches Some(e) && bearer_in(headers) != Some(e@)
}

/// Checks the bearer token against the configured one and finds the workspace.
pub fn authorize(config: &ServerConfig, headers: &Vec<(String, String)>) -> (r: Result<
    AuthContext,
    ApiError,
>)
    ensures
        r is Err <==> refused(config.auth_token, headers@),
        r matches Err(e) ==> e.status == 401 && e.body.message@ == "unauthorized"@ && (
        value_of(headers@, "x-request-id"@) matches Some(id) ==> e.body.request_id matches Some(
            rid,
        ) && rid@ == id),
        r matches Ok(ctx) ==> {
            &&& ctx.token_present == bearer_in(headers@) is Some
            &&& ctx.workspace_id@ == workspace_in(headers@, config.default_workspace@)
            &&& ctx.actor matches Some(a) ==> a@ == "bearer-token"@
            &&& ctx.actor is Some == bearer_in(headers@) is Some
        },
{
    let request_id = request_id_from_headers(headers);
    let bearer = extract_bearer(headers);
    if let Some(expected) = &config.auth_token {
        let ok = match &bearer {
            Some(b) => {
                let bc = chars_of_string(b);
                let ec = chars_of_string(expected);
                eq_vec(&bc, &ec)
            },
            None => false,
        };
        if !ok {
            return Err(ApiError::unauthorized(request_id));
        }
    }
    let workspace_id = match lookup_value(headers, WORKSPACE_HEADER) {
        Some(v) => {
            let t = trim_vec(&v);
            if t.len() > 0 {
                string_from_chars(&t)
            } else {
                config.default_workspace.clone()
            }
        },
        None => config.default_workspace.clone(),
    };
    proof {
        reveal_strlit("x-imgforge-workspace");
    }
    let token_present = bearer.is_some();
    let actor = match &bearer {
        Some(_) => Some(string_of("bearer-token")),
        None => None,
    };
    Ok(AuthContext { token_present, workspace_id, actor })
}

/// The message of a refused workspace: `workspace mismatch: expected <e>, got <a>`.
pub open spec fn mismatch_message(expected: Seq<char>, actual: Seq<char>) -> Seq<char> {
    "workspace mismatch: expected "@ + expected + ", got "@ + actual
}

fn mismatch_message_exec(expected: &str, actual: &Vec<char>) -> (r: String)
    ensures
        r@ == mismatch_message(expected@, actual@),
{
    let mut out: Vec<char> = Vec::new();
    push_str(&mut out, "workspace mismatch: expected ");
    push_str(&mut out, expected);
    push_str(&mut out, ", got ");
    push_all(&mut out, actual);
    string_from_chars(&out)
}

/// A record of workspace `actual` may be used from workspace `expected`: a record with no
/// (or a blank) workspace may be used from any.
pub open spec fn workspace_allowed(expected: Seq<char>, actual: Option<Seq<char>>) -> bool {
    match actual {
        Some(a) => trim(a).len() == 0 || trim(a) == expected,
        None => true,
    }
}

pub fn enforce_workspace_store(expected: &str, actual: Option<&str>) -> (r: Result<(), StoreError>)
    ensures
        r is Ok <==> workspace_allowed(expected@, match actual {
            Some(a) => Some(a@),
            None => None,
        }),
        r matches Err(e) ==> e matches StoreError::Validation(m) && actual matches Some(a)
            && m@ == mismatch_message(expected@, trim(a@)),
{
    let a = match actual {
        Some(a) => a,
        None => return Ok(()),
    };
    let ac = chars_of(a);
    let t = trim_vec(&ac);
    if t.len() == 0 {
        return Ok(());
    }
    let ec = chars_of(expected);
    if eq_vec(&t, &ec) {
        Ok(())
    } else {
        Err(StoreError::Validation(mismatch_message_exec(expected, &t)))
    }
}

pub fn enforce_workspace(expected: &str, actual: Option<&str>, request_id: String) -> (r: Result<
    (),
    ApiError,
>)
    ensures
        r is Ok <==> workspace_allowed(expected@, match actual {
            Some(a) => Some(a@),
            None => None,
        }),
        r matches Err(e) ==> {
            &&& e.status == 403
            &&& e.body.code == crate::server::error::RemoteApiErrorCode::Forbidden
            &&& !e.body.retryable
            &&& e.body.request_id == Some(request_id)
            &&& e.body.message@ == mismatch_message(expected@, match actual {
                Some(a) => a@,
                None => "<empty>"@,
            })
        },
{
    match enforce_workspace_store(expected, actual) {
        Ok(()) => Ok(()),
        Err(_) => {
            let shown = match actual {
                Some(a) => chars_of(a),
                None => chars_of("<empty>"),
            };
            Err(ApiError::forbidden(request_id, mismatch_message_exec(expected, &shown)))
        },
    }
}

} // verus!
