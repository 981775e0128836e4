//! The context store: flat JSON objects of string-to-string pairs.
//!
//! The persisted context, action headers and project configuration are all
//! stored as one JSON object whose values are strings.  Encoding and
//! decoding are delegated to `serde_json`; what a document means is named by
//! [`flat_json_value`], and the two trusted items below are the only places
//! that meaning is assumed rather than proved.

use vstd::prelude::*;
use crate::error::CoreError;
use crate::kv::{map_of_pairs, unique_keys, KvMap};

verus! {

/// The flat string-to-string mapping a JSON document encodes: the mapping of
/// its pairs when the document is a JSON object with string values, and
/// nothing when it is anything else.
pub uninterp spec fn flat_json_value(doc: Seq<char>) -> Option<Map<Seq<char>, Seq<char>>>;

/// Relies on `serde_json::from_str` into `HashMap<String, String>`: it
/// succeeds exactly on JSON objects whose values are all strings and yields
/// that mapping; the pairs are handed out in no particular order.
#[verifier::external_body]
fn parse_flat_json(doc: &str) -> (r: Option<Vec<(String, String)>>)
    ensures
        match r {
            Some(pairs) => unique_keys(pairs@) && flat_json_value(doc@) == Some(
                map_of_pairs(pairs@),
            ),
            None => flat_json_value(doc@) is None,
        },
{
    let m: std::collections::HashMap<String, String> = match serde_json::from_str(doc) {
        Ok(m) => m,
        Err(_) => return None,
    };
    Some(m.into_iter().collect())
}

/// Relies on `serde_json::to_string` on a `BTreeMap<String, String>`: a
/// string map is encoded as a flat JSON object that `serde_json::from_str`
/// reads back as the same mapping.
#[verifier::external_body]
fn flat_json_of_pairs(pairs: &Vec<(String, String)>) -> (r: String)
    requires
        unique_keys(pairs@),
    ensures
        flat_json_value(r@) == Some(map_of_pairs(pairs@)),
{
    let m: std::collections::BTreeMap<&str, &str> = pairs.iter().map(
        |p: &(String, String)| (p.0.as_str(), p.1.as_str()),
    ).collect();
    serde_json::to_string(&m).expect("maps of strings always serialize")
}

/// Decode a flat JSON object into its pairs; keys are unique, their order
/// is unspecified.
pub(crate) fn decode_flat_pairs(doc: &str) -> (r: Option<Vec<(String, String)>>)
    ensures
        match r {
            Some(pairs) => unique_keys(pairs@) && flat_json_value(doc@) == Some(
                map_of_pairs(pairs@),
            ),
            None => flat_json_value(doc@) is None,
        },
{
    parse_flat_json(doc)
}

/// Decode a persisted flat JSON object; a document of any other shape is a
/// serialization error carrying the offending text.
pub fn load_flat_map(doc: &str) -> (r: Result<KvMap, CoreError>)
    ensures
        match r {
            Ok(m) => m.wf() && flat_json_value(doc@) == Some(m@),
            Err(e) => e matches CoreError::Serialization(_) && flat_json_value(doc@) is None,
        },
{
    match parse_flat_json(doc) {
        Some(pairs) => Ok(KvMap::from_unique_pairs(pairs)),
        None => Err(CoreError::Serialization(s_to_owned(doc))),
    }
}

/// Encode a mapping as a flat JSON object; decoding the result yields an
/// equal mapping.
pub fn save_flat_map(m: &KvMap) -> (r: String)
    requires
        m.wf(),
    ensures
        flat_json_value(r@) == Some(m@),
{
    flat_json_of_pairs(m.to_pairs())
}

/// Law: persisting a context mapping and loading what was persisted yields
/// an equal mapping, whichever document the encoder chose for it.
pub fn context_round_trip(m: &KvMap) -> (r: KvMap)
    requires
        m.wf(),
    ensures
        r.wf(),
        r@ == m@,
{
    let doc = save_flat_map(m);
    match load_flat_map(doc.as_str()) {
        Ok(loaded) => loaded,
        Err(_) => {
            proof {
                assert(false);
            }
            unreached()
        },
    }
}

fn s_to_owned(s: &str) -> (r: String)
    ensures
        r@ == s@,
{
    s.to_owned()
}

} // verus!
