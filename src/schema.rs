//! Preparing a response schema for a structured answer.

use crate::json::{object_keys, remove_key};
use vstd::prelude::*;

verus! {

/// The meta-schema identifier key, `$schema`.
pub open spec fn meta_schema_key() -> Seq<char> {
    seq!['$', 's', 'c', 'h', 'e', 'm', 'a']
}

/// The schema title key, `title`.
pub open spec fn title_key() -> Seq<char> {
    seq!['t', 'i', 't', 'l', 'e']
}

/// Strips the metadata keys `$schema` and `title`, which some chat backends
/// reject, from a derived answer schema. Every other key is kept.
pub fn strip_schema_metadata(schema: &mut serde_json::Map<String, serde_json::Value>)
    ensures
        object_keys(*final(schema)) == object_keys(*old(schema)).remove(meta_schema_key()).remove(
            title_key(),
        ),
        !object_keys(*final(schema)).contains(meta_schema_key()),
        !object_keys(*final(schema)).contains(title_key()),
{
    let k1 = "$schema";
    let k2 = "title";
    proof {
        reveal_strlit("$schema");
        reveal_strlit("title");
        assert(k1@ =~= meta_schema_key());
        assert(k2@ =~= title_key());
    }
    remove_key(schema, k1);
    remove_key(schema, k2);
}

/// The shape the caller wants the answer in.
pub enum AnswerShape {
    /// The answer is the reply's text as it is.
    Text,
    /// The answer is parsed from JSON that follows this derived schema.
    Structured(serde_json::Map<String, serde_json::Value>),
}

/// The schema attached to requests for an answer of the given shape: none
/// for text, and the derived schema without its metadata keys otherwise.
pub fn response_schema(shape: AnswerShape) -> (r: Option<serde_json::Map<String, serde_json::Value>>)
    ensures
        shape is Text ==> r is None,
        shape matches AnswerShape::Structured(m) ==> r matches Some(out) && object_keys(out)
            == object_keys(m).remove(meta_schema_key()).remove(title_key()),
        r matches Some(out) ==> !object_keys(out).contains(meta_schema_key())
            && !object_keys(out).contains(title_key()),
{
    match shape {
        AnswerShape::Text => None,
        AnswerShape::Structured(m) => {
            let mut m = m;
            strip_schema_metadata(&mut m);
            Some(m)
        },
    }
}

} // verus!
