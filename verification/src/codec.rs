//! The layered blob decode: base64 text, gzip stream, tag tree, item
//! record.
//!
//! The two outer layers run through trusted wrappers whose results carry
//! specification names ([`b64_decoded`], [`gunzip_of`]); everything after
//! them — tree reading and record mapping — is verified, so the whole
//! pipeline's outcome is pinned down as a function of those two names.

use vstd::prelude::*;

use crate::errors::DecodeError;
use crate::item::{decode_item, sp_item, ItemData, ItemDataV};
use crate::tree::{parse_root, sp_root};
use crate::trusted::{b64_decoded, base64_decode, gunzip, gunzip_of};

verus! {

/// What decoding a blob yields: `Err` at the first structural violation,
/// otherwise the item record of the wrapper list's first entry, with the
/// surplus-entry anomaly as the flag.
pub open spec fn sp_decode(blob: Seq<char>) -> Result<(ItemDataV, bool), DecodeError> {
    match b64_decoded(blob) {
        None => Err(DecodeError::Encoding),
        Some(compressed) => match gunzip_of(compressed) {
            None => Err(DecodeError::Encoding),
            Some(bytes) => match sp_root(bytes) {
                None => Err(DecodeError::Malformed),
                Some(root) => sp_item(root.1),
            },
        },
    }
}

/// Decodes one listing's item blob: base64 text to compressed bytes, gzip to
/// the tree bytes, tree to the item record — exactly as [`sp_decode`]
/// denotes. The flag reports surplus wrapper entries (the decode took the
/// first entry; the anomaly should be reported, not ignored). No input
/// panics; no partial record is returned on failure.
pub fn decode(blob: &str) -> (r: Result<(ItemData, bool), DecodeError>)
    ensures
        match r {
            Ok(p) => sp_decode(blob@) == Ok::<(ItemDataV, bool), DecodeError>((p.0@, p.1)),
            Err(e) => sp_decode(blob@) == Err::<(ItemDataV, bool), DecodeError>(e),
        },
{
    let compressed = match base64_decode(blob) {
        Some(v) => v,
        None => {
            return Err(DecodeError::Encoding);
        },
    };
    let bytes = match gunzip(&compressed) {
        Some(v) => v,
        None => {
            return Err(DecodeError::Encoding);
        },
    };
    let root = match parse_root(&bytes) {
        Some(p) => p,
        None => {
            return Err(DecodeError::Malformed);
        },
    };
    match decode_item(&root.1) {
        Ok(p) => Ok(p),
        Err(e) => Err(e),
    }
}

} // verus!
