//! The persisted form of the index: one JSON object whose fields are the
//! `name -> description` pairs. Encoding and decoding are serde_json's.

use crate::model::{mapping_of, Mapping};
use std::collections::HashMap;
use vstd::prelude::*;

verus! {

/// The error type of serde_json, carried through as an opaque value.
#[verifier::external_type_specification]
#[verifier::external_body]
pub struct ExJsonError(serde_json::Error);

/// What `serde_json::from_str` makes of `text` when asked for a map from
/// strings to strings: the decoded mapping, or `None` where it reports an
/// error.
pub uninterp spec fn json_object(text: Seq<char>) -> Option<Mapping>;

/// Calls `serde_json::from_str` for a `HashMap<String, String>` and hands the
/// decoded fields out as pairs, in no particular order.
///
/// Trusted: the call fails exactly where [`json_object`] is `None`, and the
/// pairs handed out stand for the decoded mapping.
#[verifier::external_body]
pub(crate) fn decode_object(text: &str) -> (decoded: Result<Vec<(String, String)>, serde_json::Error>)
    ensures
        match decoded {
            Ok(pairs) => json_object(text@) == Some(mapping_of(pairs.deep_view())),
            Err(_) => json_object(text@) is None,
        },
{
    let object = serde_json::from_str::<HashMap<String, String>>(text)?;
    Ok(object.into_iter().collect())
}

/// Calls `serde_json::to_string` on a `HashMap<String, String>` filled with
/// `pairs`, later pairs replacing earlier ones of the same name.
///
/// Trusted: the call succeeds, since serde_json documents failure only for
/// a `Serialize` impl that fails and for maps with keys that are not
/// strings, and neither can happen here; the text is a JSON object, so it
/// is never empty; and decoding it gives the mapping back. The order of the
/// fields in the text is the hash map's and is not stated.
#[verifier::external_body]
pub(crate) fn encode_object(pairs: &Vec<(String, String)>) -> (encoded: Result<String, serde_json::Error>)
    ensures
        encoded is Ok,
        encoded matches Ok(text) ==> text@.len() > 0,
        encoded matches Ok(text) ==> json_object(text@) == Some(mapping_of(pairs.deep_view())),
{
    let object: HashMap<String, String> = pairs.iter().cloned().collect();
    serde_json::to_string(&object)
}

/// Calls `to_string` on a `serde_json::Error`, which gives its `Display`
/// text. Nothing is claimed of the text.
#[verifier::external_body]
pub(crate) fn json_error_text(error: &serde_json::Error) -> String {
    error.to_string()
}

} // verus!
