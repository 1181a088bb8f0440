//! The library's boundary with outside code.
//!
//! Every function here is `external_body`: its contract is assumed, not
//! proved, and states only what the called function's own source or
//! documentation plainly promises. Everything else in the crate is verified
//! against these contracts.

use vstd::prelude::*;
use vstd::utf8::{decode_utf8, valid_utf8};

use base64::Engine;
use std::io::Read;

use crate::pet::JsonPrim;

verus! {

/// Relies on `String::from_utf8`: it succeeds exactly on valid UTF-8 input
/// and decodes the bytes without altering them.
#[verifier::external_body]
pub(crate) fn string_from_utf8(v: Vec<u8>) -> (r: Option<String>)
    ensures
        match r {
            Some(s) => valid_utf8(v@) && s@ == decode_utf8(v@),
            None => !valid_utf8(v@),
        },
{
    String::from_utf8(v).ok()
}

/// What standard-alphabet base64 decoding yields for a character sequence:
/// `None` when the text is not well-formed padded base64, otherwise the
/// decoded bytes. The decoding is a function of the text alone.
pub uninterp spec fn b64_decoded(s: Seq<char>) -> Option<Seq<u8>>;

/// Relies on `base64::engine::general_purpose::STANDARD.decode`: it decodes
/// standard padded base64 and fails exactly on ill-formed input.
#[verifier::external_body]
pub(crate) fn base64_decode(s: &str) -> (r: Option<Vec<u8>>)
    ensures
        match r {
            Some(v) => b64_decoded(s@) == Some(v@),
            None => b64_decoded(s@) is None,
        },
{
    base64::engine::general_purpose::STANDARD.decode(s).ok()
}

/// What gzip decompression yields for a byte sequence: `None` when the bytes
/// are not a well-formed gzip stream, otherwise the decompressed bytes. The
/// result is a function of the input bytes alone.
pub uninterp spec fn gunzip_of(b: Seq<u8>) -> Option<Seq<u8>>;

/// Relies on `flate2::read::GzDecoder` and `std::io::Read::read_to_end`:
/// reading the decoder to its end decompresses the whole gzip stream and
/// fails exactly on a corrupt one.
#[verifier::external_body]
pub(crate) fn gunzip(b: &Vec<u8>) -> (r: Option<Vec<u8>>)
    ensures
        match r {
            Some(v) => gunzip_of(b@) == Some(v@),
            None => gunzip_of(b@) is None,
        },
{
    let mut gz = flate2::read::GzDecoder::new(&b[..]);
    let mut out = Vec::new();
    match gz.read_to_end(&mut out) {
        Ok(_) => Some(out),
        Err(_) => None,
    }
}

/// What parsing the embedded pet text yields: `None` when the text is not a
/// JSON object, otherwise the object's top-level members, each name paired
/// with its value reduced to a scalar form ([`crate::pet::JsonPrimV`]). The
/// members come in a canonical order, numbers in their canonical decimal
/// rendering, and a repeated name keeps one member — all functions of the
/// text alone, so the whole result is one.
pub uninterp spec fn json_members_of(s: Seq<char>) -> Option<Seq<(Seq<char>, crate::pet::JsonPrimV)>>;

/// Relies on `serde_json::from_str::<Value>` (it parses a self-contained
/// JSON text, deterministically, failing on ill-formed input), on
/// `Value::as_object`, and on the canonical `Display` rendering of a JSON
/// number. The body only converts: one arm per value kind, nothing decided.
/// Which members a pet document must have, and what their texts mean, is
/// settled by the verified decoder on the returned members.
#[verifier::external_body]
pub(crate) fn parse_json_members(s: &str) -> (r: Option<Vec<(String, crate::pet::JsonPrim)>>)
    ensures
        match r {
            Some(m) => json_members_of(s@) == Some(
                m@.map_values(|p: (String, crate::pet::JsonPrim)| (p.0@, p.1@)),
            ),
            None => json_members_of(s@) is None,
        },
{
    let v: serde_json::Value = serde_json::from_str(s).ok()?;
    let obj = v.as_object()?;
    Some(obj.iter().map(|(k, m)| (k.clone(), match m {
        serde_json::Value::Null => JsonPrim::Null,
        serde_json::Value::Bool(b) => JsonPrim::Flag(*b),
        serde_json::Value::Number(n) => JsonPrim::NumText(n.to_string()),
        serde_json::Value::String(t) => JsonPrim::Text(t.clone()),
        _ => JsonPrim::Composite,
    })).collect())
}

} // verus!
