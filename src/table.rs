use fnv::FnvBuildHasher;
use hashbrown::HashMap;

use vstd::prelude::*;

verus! {

/// A metric key qualified by the id of the scope it was sent under.  Scope id 0 is the root
/// scope.
pub type ScopedKey = (u64, String);

/// The mathematical form of a scoped key.
pub type KeyView = (u64, Seq<char>);

pub open spec fn key_view(k: &ScopedKey) -> KeyView {
    (k.0, k.1@)
}

/// Copies a scoped key.
pub fn clone_key(k: &ScopedKey) -> (r: ScopedKey)
    ensures
        key_view(&r) == key_view(k),
{
    (k.0, k.1.clone())
}

/// A hash table from scoped keys to values, on `hashbrown` with the FNV hasher.
///
/// The table lives in a field hidden from verification: its contents are described by
/// `signed_entries` and `unsigned_entries`, which the operations below speak of.
#[verifier::external_body]
#[verifier::reject_recursive_types(V)]
pub struct ScopedTable<V> {
    map: HashMap<ScopedKey, V, FnvBuildHasher>,
}

/// What a table of signed values holds, key by key.
pub uninterp spec fn signed_entries(t: ScopedTable<i64>) -> Map<KeyView, i64>;

/// What a table of unsigned values holds, key by key.
pub uninterp spec fn unsigned_entries(t: ScopedTable<u64>) -> Map<KeyView, u64>;

/// Relies on `HashMap::with_hasher`: a new table is empty.
#[verifier::external_body]
pub(crate) fn signed_table_new() -> (r: ScopedTable<i64>)
    ensures
        forall|k: KeyView| !#[trigger] signed_entries(r).contains_key(k),
{
    ScopedTable { map: HashMap::with_hasher(FnvBuildHasher::default()) }
}

/// Relies on `HashMap::get`: the value stored under the key, if any.
#[verifier::external_body]
pub(crate) fn signed_table_get(t: &ScopedTable<i64>, k: &ScopedKey) -> (r: Option<i64>)
    ensures
        signed_entries(*t).contains_key(key_view(k)) ==> r == Some(signed_entries(*t)[key_view(k)]),
        !signed_entries(*t).contains_key(key_view(k)) ==> r is None,
{
    t.map.get(k).copied()
}

/// Relies on `HashMap::insert`: the key now maps to the value, other keys are untouched.
#[verifier::external_body]
pub(crate) fn signed_table_insert(t: &mut ScopedTable<i64>, k: ScopedKey, v: i64)
    ensures
        signed_entries(*final(t)) == signed_entries(*old(t)).insert(key_view(&k), v),
{
    t.map.insert(k, v);
}

/// Relies on `HashMap::iter`: every entry once, in an order the table chooses.
#[verifier::external_body]
pub(crate) fn signed_table_entries(t: &ScopedTable<i64>) -> (r: Vec<(ScopedKey, i64)>)
    ensures
        lists_exactly_signed(r@, signed_entries(*t)),
{
    t.map.iter().map(|(k, v)| (k.clone(), *v)).collect()
}

/// Relies on `HashMap::with_hasher`: a new table is empty.
#[verifier::external_body]
pub(crate) fn unsigned_table_new() -> (r: ScopedTable<u64>)
    ensures
        forall|k: KeyView| !#[trigger] unsigned_entries(r).contains_key(k),
{
    ScopedTable { map: HashMap::with_hasher(FnvBuildHasher::default()) }
}

/// Relies on `HashMap::get`: the value stored under the key, if any.
#[verifier::external_body]
pub(crate) fn unsigned_table_get(t: &ScopedTable<u64>, k: &ScopedKey) -> (r: Option<u64>)
    ensures
        unsigned_entries(*t).contains_key(key_view(k)) ==> r == Some(
            unsigned_entries(*t)[key_view(k)],
        ),
        !unsigned_entries(*t).contains_key(key_view(k)) ==> r is None,
{
    t.map.get(k).copied()
}

/// Relies on `HashMap::insert`: the key now maps to the value, other keys are untouched.
#[verifier::external_body]
pub(crate) fn unsigned_table_insert(t: &mut ScopedTable<u64>, k: ScopedKey, v: u64)
    ensures
        unsigned_entries(*final(t)) == unsigned_entries(*old(t)).insert(key_view(&k), v),
{
    t.map.insert(k, v);
}

/// Relies on `HashMap::iter`: every entry once, in an order the table chooses.
#[verifier::external_body]
pub(crate) fn unsigned_table_entries(t: &ScopedTable<u64>) -> (r: Vec<(ScopedKey, u64)>)
    ensures
        lists_exactly_unsigned(r@, unsigned_entries(*t)),
{
    t.map.iter().map(|(k, v)| (k.clone(), *v)).collect()
}

/// `s` lists each entry of `m` exactly once.
pub open spec fn lists_exactly_signed(s: Seq<(ScopedKey, i64)>, m: Map<KeyView, i64>) -> bool {
    &&& forall|i: int|
        0 <= i < s.len() ==> m.contains_key(key_view(&(#[trigger] s[i]).0)) && m[key_view(&s[i].0)]
            == s[i].1
    &&& forall|k: KeyView| #[trigger]
        m.contains_key(k) ==> exists|i: int| 0 <= i < s.len() && key_view(&s[i].0) == k
    &&& forall|i: int, j: int|
        0 <= i < s.len() && 0 <= j < s.len() && i != j ==> key_view(&s[i].0) != key_view(
            &s[j].0,
        )
}

/// `s` lists each entry of `m` exactly once.
pub open spec fn lists_exactly_unsigned(s: Seq<(ScopedKey, u64)>, m: Map<KeyView, u64>) -> bool {
    &&& forall|i: int|
        0 <= i < s.len() ==> m.contains_key(key_view(&(#[trigger] s[i]).0)) && m[key_view(&s[i].0)]
            == s[i].1
    &&& forall|k: KeyView| #[trigger]
        m.contains_key(k) ==> exists|i: int| 0 <= i < s.len() && key_view(&s[i].0) == k
    &&& forall|i: int, j: int|
        0 <= i < s.len() && 0 <= j < s.len() && i != j ==> key_view(&s[i].0) != key_view(
            &s[j].0,
        )
}

} // verus!
