//! JSON values handed through the library, and the object maps whose keys
//! the library edits.

use vstd::prelude::*;

verus! {

#[verifier::external_type_specification]
#[verifier::external_body]
pub struct ExJsonValue(serde_json::Value);

#[verifier::external_type_specification]
#[verifier::external_body]
#[verifier::reject_recursive_types(K)]
#[verifier::reject_recursive_types(V)]
pub struct ExJsonMap<K, V>(serde_json::Map<K, V>);

/// The keys that a JSON object holds.
pub uninterp spec fn object_keys(m: serde_json::Map<String, serde_json::Value>) -> Set<Seq<char>>;

/// Relies on serde_json::Map::remove: afterwards the key is absent and every
/// other key is still present.
#[verifier::external_body]
pub(crate) fn remove_key(m: &mut serde_json::Map<String, serde_json::Value>, key: &str)
    ensures
        object_keys(*final(m)) == object_keys(*old(m)).remove(key@),
{
    m.remove(key);
}

} // verus!
