//! The persistent map that holds the accounts.

use near_sdk::collections::LookupMap;
use vstd::prelude::*;

verus! {

/// An account as it is stored: the fields of [`crate::Account`] in their order.
pub type AccountRecord = (u128, u128, u128, u64, u128, i128, u16, u128);

/// The persistent map of near-sdk: a handle that names a part of the contract's
/// storage by a key prefix.
#[verifier::external_type_specification]
#[verifier::external_body]
#[verifier::reject_recursive_types(K)]
#[verifier::reject_recursive_types(V)]
pub struct ExLookupMap<K, V>(LookupMap<K, V>);

/// What the storage under the map's prefix holds. near-sdk asks for a prefix
/// that is unique, so that nothing but this handle changes it.
pub uninterp spec fn stored_records(
    map: LookupMap<String, AccountRecord>,
) -> Map<Seq<char>, AccountRecord>;

/// Most characters of an account id. A character takes at most four bytes, and
/// the host takes storage keys of up to four mebibytes: this leaves room for the
/// map's prefix and for the length that stands before the id.
pub const MAX_ACCOUNT_ID_CHARS: u32 = 1_000_000;

/// Whether an account id can be a key of the map.
pub open spec fn storable_id(id: Seq<char>) -> bool {
    id.len() <= MAX_ACCOUNT_ID_CHARS
}

/// `near_sdk::collections::LookupMap::get`: the record under the key, if there is one.
///
/// Where the host denies a storage access for want of gas, or bytes under the
/// prefix are not a record, the whole transaction ends and is undone. The
/// contract speaks of the calls that return.
#[verifier::external_body]
pub(crate) fn read_record(map: &LookupMap<String, AccountRecord>, id: &String) -> (found: Option<
    AccountRecord,
>)
    requires
        storable_id(id@),
    ensures
        found == (if stored_records(*map).contains_key(id@) {
            Some(stored_records(*map)[id@])
        } else {
            None
        }),
{
    map.get(id)
}

/// `near_sdk::collections::LookupMap::insert`: puts the record under the key in
/// place of the one that was there, and hands that one out. The rest stays.
///
/// As in [`read_record`], the contract speaks of the calls that return.
#[verifier::external_body]
pub(crate) fn write_record(
    map: &mut LookupMap<String, AccountRecord>,
    id: &String,
    record: &AccountRecord,
) -> (replaced: Option<AccountRecord>)
    requires
        storable_id(id@),
    ensures
        stored_records(*final(map)) == stored_records(*old(map)).insert(id@, *record),
        replaced == (if stored_records(*old(map)).contains_key(id@) {
            Some(stored_records(*old(map))[id@])
        } else {
            None
        }),
{
    map.insert(id, record)
}

/// `near_sdk::collections::LookupMap::remove`: takes out the record under the
/// key, if there is one, and hands it out. The rest stays.
///
/// As in [`read_record`], the contract speaks of the calls that return.
#[verifier::external_body]
pub(crate) fn delete_record(map: &mut LookupMap<String, AccountRecord>, id: &String) -> (removed:
    Option<AccountRecord>)
    requires
        storable_id(id@),
    ensures
        stored_records(*final(map)) == stored_records(*old(map)).remove(id@),
        removed == (if stored_records(*old(map)).contains_key(id@) {
            Some(stored_records(*old(map))[id@])
        } else {
            None
        }),
{
    map.remove(id)
}

} // verus!
