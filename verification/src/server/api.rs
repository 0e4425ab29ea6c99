//! Request identifiers of the HTTP API.
use vstd::prelude::*;

use crate::server::config::{lookup_value, value_of};
use crate::text::string_from_chars;

verus! {

/// A fresh random request id (`uuid::Uuid::new_v4`, hyphenated). Nothing is stated of the
/// value: it is random.
#[verifier::external_body]
pub fn new_request_id() -> (r: String) {
    uuid::Uuid::new_v4().to_string()
}

/// The `x-request-id` header when the request carries one, else a fresh id.
pub fn request_id_from_headers(headers: &Vec<(String, String)>) -> (r: String)
    ensures
        value_of(headers@, "x-request-id"@) matches Some(v) ==> r@ == v,
{
    match lookup_value(headers, "x-request-id") {
        Some(v) => string_from_chars(&v),
        None => new_request_id(),
    }
}

} // verus!
