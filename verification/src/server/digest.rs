//! Hashing and the text encodings around it: SHA-256, HMAC-SHA256, lower-case hex and
//! URL percent-encoding, with the UNIX-time stamp that request signatures carry.
use vstd::prelude::*;
use vstd::utf8::encode_utf8;
use hmac::Mac;
use sha2::Digest;

verus! {

/// The SHA-256 digest of `data` (`sha2::Sha256::digest`).
pub uninterp spec fn sha256_of(data: Seq<u8>) -> Seq<u8>;

/// HMAC-SHA256 of `data` under `key` (`hmac::Hmac<Sha256>`).
pub uninterp spec fn hmac_sha256_of(key: Seq<u8>, data: Seq<u8>) -> Seq<u8>;

/// `YYYYMMDD'T'HHMMSS'Z'` of a UNIX time in UTC (`chrono` with format `%Y%m%dT%H%M%SZ`).
pub uninterp spec fn amz_date_of(secs: u64) -> Seq<char>;

/// `sha2::Sha256::digest`: the 32-byte digest, named `sha256_of`.
#[verifier::external_body]
pub(crate) fn sha256(data: &[u8]) -> (r: Vec<u8>)
    ensures
        r@ == sha256_of(data@),
        r@.len() == 32,
{
    sha2::Sha256::digest(data).to_vec()
}

/// `Hmac::<Sha256>::new_from_slice(key)`, `update(data)`, `finalize`: the 32-byte tag,
/// named `hmac_sha256_of`. HMAC takes a key of any length, so the construction cannot fail.
#[verifier::external_body]
pub(crate) fn hmac_sha256(key: &[u8], data: &[u8]) -> (r: Vec<u8>)
    ensures
        r@ == hmac_sha256_of(key@, data@),
        r@.len() == 32,
{
    let mut mac = hmac::Hmac::<sha2::Sha256>::new_from_slice(key).expect("hmac key");
    mac.update(data);
    mac.finalize().into_bytes().to_vec()
}

/// The lower-case hexadecimal digit of `d < 16`.
pub open spec fn hex_digit_lower(d: u8) -> char {
    if d < 10 {
        (('0' as u8) + d) as char
    } else {
        (('a' as u8) + d - 10) as char
    }
}

/// The upper-case hexadecimal digit of `d < 16`.
pub open spec fn hex_digit_upper(d: u8) -> char {
    if d < 10 {
        (('0' as u8) + d) as char
    } else {
        (('A' as u8) + d - 10) as char
    }
}

/// Two lower-case hex digits for each byte, high nibble first.
pub open spec fn hex_lower(bytes: Seq<u8>) -> Seq<char>
    decreases bytes.len(),
{
    if bytes.len() == 0 {
        seq![]
    } else {
        let b = bytes.last();
        hex_lower(bytes.drop_last()) + seq![hex_digit_lower(b / 16), hex_digit_lower(b % 16)]
    }
}

/// `hex::encode`: two lower-case hex digits for each byte.
#[verifier::external_body]
pub(crate) fn hex_encode(bytes: &[u8]) -> (r: String)
    ensures
        r@ == hex_lower(bytes@),
{
    hex::encode(bytes)
}

/// The bytes that URL encoding keeps: ASCII letters and digits and `-`, `.`, `_`, `~`.
pub open spec fn unreserved(b: u8) -> bool {
    (48 <= b <= 57) || (65 <= b <= 90) || (97 <= b <= 122) || b == 45 || b == 46 || b == 95
        || b == 126
}

/// Percent-encoding of bytes: unreserved bytes as themselves, every other byte as `%`
/// and two upper-case hex digits.
pub open spec fn percent_encoded(bytes: Seq<u8>) -> Seq<char>
    decreases bytes.len(),
{
    if bytes.len() == 0 {
        seq![]
    } else {
        let b = bytes.last();
        percent_encoded(bytes.drop_last()) + if unreserved(b) {
            seq![b as char]
        } else {
            seq!['%', hex_digit_upper(b / 16), hex_digit_upper(b % 16)]
        }
    }
}

/// `urlencoding::encode`: the percent-encoding of the UTF-8 bytes of `s`.
#[verifier::external_body]
pub(crate) fn url_encode(s: &str) -> (r: String)
    ensures
        r@ == percent_encoded(encode_utf8(s@)),
{
    urlencoding::encode(s).into_owned()
}

/// Seconds since the epoch of 1 January 10000, from which a year has five digits.
pub const YEAR_10000_SECS: u64 = 253_402_300_800;

/// The stamp of UNIX time `secs` (`chrono::DateTime::from_timestamp` formatted with
/// `%Y%m%dT%H%M%SZ`; a time that chrono cannot represent formats as the epoch). The stamp
/// is ASCII, sign, digits, `T` and `Z`, at least sixteen characters since `%Y` pads the
/// year to four digits and signs years past 9999; before the year 10000 it is exactly
/// sixteen. The digits themselves are not stated.
#[verifier::external_body]
pub(crate) fn amz_date_from_unix(secs: u64) -> (r: String)
    ensures
        r@ == amz_date_of(secs),
        r@.len() >= 16,
        forall|i: int| 0 <= i < r@.len() ==> (#[trigger] r@[i] as u32) < 128,
        secs < YEAR_10000_SECS ==> r@.len() == 16,
{
    let dt = chrono::DateTime::from_timestamp(secs as i64, 0)
        .unwrap_or(chrono::DateTime::UNIX_EPOCH);
    dt.format("%Y%m%dT%H%M%SZ").to_string()
}

} // verus!
