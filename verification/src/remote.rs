//! The remote version source for Hackage: the fixed query URL, the content
//! negotiation header, and the turning of a fetched JSON body into the
//! ordered list of installable versions.
//!
//! The network transfer itself is a collaborator outside this crate; it hands
//! the response body in and takes the request description out as plain
//! values.

use vstd::prelude::*;
use crate::version_order::{
    order, sorted, spec_order, views, lemma_order_permutation, lemma_order_sorted,
};

verus! {

/// The top-level keys of a JSON object, as decoded by `serde_json`: `None`
/// where the body is not a JSON object, else the set of its (unique) keys.
pub uninterp spec fn json_object_keys(body: Seq<char>) -> Option<Set<Seq<char>>>;

/// Relies on `serde_json::from_str` decoding into `serde_json::Map` and on
/// `serde_json::Map::keys` (the two cannot be split: the decoded map is
/// opaque here). Decoding succeeds exactly on JSON objects, the result
/// depends on the body text alone, and the keys of a map are unique.
#[verifier::external_body]
fn decode_object_keys(body: &str) -> (r: Option<Vec<String>>)
    ensures
        r is Some <==> json_object_keys(body@) is Some,
        r matches Some(v) ==> json_object_keys(body@) == Some(views(v@).to_set()),
        r matches Some(v) ==> views(v@).no_duplicates(),
{
    match serde_json::from_str::<serde_json::Map<String, serde_json::Value>>(body) {
        Ok(m) => Some(m.keys().cloned().collect()),
        Err(_) => None,
    }
}

/// Why no remote versions could be resolved: the transfer failed, the remote
/// answered with a non-success status, or the body was not the expected JSON
/// object. Any of these means "not resolvable right now", never "zero
/// versions exist".
#[derive(Debug)]
pub enum FetchError {
    Network { detail: String },
    Status { code: u16 },
    MalformedBody,
}

/// The fixed Hackage endpoint that lists a package's versions, templated
/// with the tool name.
pub fn remote_versions_url(tool: &str) -> (r: String)
    ensures
        r@ == "https://hackage.haskell.org/package/"@ + tool@,
{
    String::from_str("https://hackage.haskell.org/package/").concat(tool)
}

/// The explicit content negotiation header the Hackage query must carry, so
/// the remote answers with JSON rather than its HTML fallback.
pub fn accept_header() -> (r: (String, String))
    ensures
        r.0@ == "Accept"@,
        r.1@ == "application/json"@,
{
    (String::from_str("Accept"), String::from_str("application/json"))
}

/// Turns a fetched response body into the ascending list of installable
/// versions: the top-level keys of the JSON object, each kept exactly once,
/// ordered by `vle`. A body that is not a JSON object is rejected whole.
pub fn versions_from_body(body: &str) -> (r: Result<Vec<String>, FetchError>)
    ensures
        r is Ok <==> json_object_keys(body@) is Some,
        r matches Ok(v) ==> json_object_keys(body@) == Some(views(v@).to_set()),
        r matches Ok(v) ==> views(v@).no_duplicates(),
        r matches Ok(v) ==> sorted(views(v@)),
        r matches Ok(v) ==> exists|raw: Seq<Seq<char>>| views(v@) == #[trigger] spec_order(raw),
        r matches Err(e) ==> e is MalformedBody,
{
    match decode_object_keys(body) {
        None => Err(FetchError::MalformedBody),
        Some(keys) => {
            let ghost raw = views(keys@);
            let ordered = order(keys);
            proof {
                broadcast use vstd::seq_lib::to_multiset_contains;

                lemma_order_sorted(raw);
                lemma_order_permutation(raw);
                let out = views(ordered@);
                assert forall|x: Seq<char>| out.contains(x) <==> raw.contains(x) by {
                    vstd::seq_lib::to_multiset_contains(out, x);
                    vstd::seq_lib::to_multiset_contains(raw, x);
                }
                assert(out.to_set() =~= raw.to_set());
                raw.lemma_multiset_has_no_duplicates();
                out.lemma_multiset_has_no_duplicates_conv();
            }
            Ok(ordered)
        },
    }
}

} // verus!
