//! Decoding of response bodies.

use vstd::prelude::*;

verus! {

/// `serde_json::Error`, the error of a failed decoding.
#[verifier::external_type_specification]
#[verifier::external_body]
pub struct ExJsonError(serde_json::Error);

/// The list of ids that `serde_json::from_str::<Vec<u32>>` reads from `body`,
/// or `None` where it reports an error.
pub uninterp spec fn json_id_list(body: Seq<char>) -> Option<Seq<u32>>;

/// `serde_json::from_str::<Vec<u32>>`: the ids that come back, or the
/// failure, are those that the decoder gives for this text, which depend on
/// the text alone.
#[verifier::external_body]
pub(crate) fn parse_id_list(body: &str) -> (parsed: Result<Vec<u32>, serde_json::Error>)
    ensures
        match parsed {
            Ok(ids) => json_id_list(body@) == Some(ids@),
            Err(_) => json_id_list(body@) is None,
        },
{
    serde_json::from_str::<Vec<u32>>(body)
}

} // verus!
