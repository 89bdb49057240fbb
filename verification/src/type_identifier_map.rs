//! The slow-path side map from a body type's process-unique identifier to its
//! compressed tag, backed by a `hashbrown::HashMap`.
//!
//! Producers consult it once per body type and cache the tag; per-message
//! dispatch never touches it.

use vstd::prelude::*;

verus! {

/// The hash map from type identifier to tag value.
#[verifier::external_body]
pub struct TypeIdentifierMap {
    map: hashbrown::HashMap<u64, u8>,
}

/// What the map holds: each registered type identifier, mapped to the value
/// of its tag.
pub uninterp spec fn type_identifier_map_view(map: TypeIdentifierMap) -> Map<u64, u8>;

/// The empty map, as a `Map` value.
pub open spec fn empty_type_identifier_map() -> Map<u64, u8> {
    Map::empty()
}

/// Relies on `hashbrown::HashMap::with_capacity`: a freshly created map holds
/// nothing.
#[verifier::external_body]
pub(crate) fn type_identifier_map_new() -> (r: TypeIdentifierMap)
    ensures
        type_identifier_map_view(r) == empty_type_identifier_map(),
{
    TypeIdentifierMap { map: hashbrown::HashMap::with_capacity(255) }
}

/// Relies on `hashbrown::HashMap::insert`: maps the key to the value, leaving
/// every other key as it was, and returns the value the key had before, if
/// any.
#[verifier::external_body]
pub(crate) fn type_identifier_map_insert(
    map: &mut TypeIdentifierMap,
    type_identifier: u64,
    tag_value: u8,
) -> (r: Option<u8>)
    ensures
        type_identifier_map_view(*final(map)) == type_identifier_map_view(*old(map)).insert(
            type_identifier,
            tag_value,
        ),
        r == if type_identifier_map_view(*old(map)).dom().contains(type_identifier) {
            Some(type_identifier_map_view(*old(map))[type_identifier])
        } else {
            None::<u8>
        },
{
    map.map.insert(type_identifier, tag_value)
}

/// Relies on `hashbrown::HashMap::get`: the value the key maps to, if the key
/// is present.
#[verifier::external_body]
pub(crate) fn type_identifier_map_get(map: &TypeIdentifierMap, type_identifier: u64) -> (r: Option<
    u8,
>)
    ensures
        r == if type_identifier_map_view(*map).dom().contains(type_identifier) {
            Some(type_identifier_map_view(*map)[type_identifier])
        } else {
            None::<u8>
        },
{
    match map.map.get(&type_identifier) {
        Some(tag_value) => Some(*tag_value),
        None => None,
    }
}

} // verus!
