use vstd::prelude::*;

verus! {

#[verifier::external_type_specification]
#[verifier::external_body]
#[verifier::reject_recursive_types(K)]
#[verifier::reject_recursive_types(V)]
#[verifier::reject_recursive_types(S)]
pub struct ExAHashMap<K, V, S>(ahash::AHashMap<K, V, S>);

#[verifier::external_type_specification]
#[verifier::external_body]
#[verifier::reject_recursive_types(T)]
#[verifier::reject_recursive_types(S)]
pub struct ExAHashSet<T, S>(ahash::AHashSet<T, S>);

#[verifier::external_type_specification]
#[verifier::external_body]
pub struct ExAHashRandomState(ahash::RandomState);

/// An identifier index: the tokens of an identifier to a slot number.
pub type IdIndex = ahash::AHashMap<(usize, usize), usize>;

/// The entries of an identifier index: the tokens of an identifier to a slot number.
pub uninterp spec fn index_entries(m: IdIndex) -> Map<
    (usize, usize),
    usize,
>;

/// The slot numbers a member set holds.
pub uninterp spec fn set_members(s: ahash::AHashSet<usize>) -> Set<usize>;

/// Relies on `AHashMap::new`: a new map is empty.
#[verifier::external_body]
pub(crate) fn index_new() -> (r: IdIndex)
    ensures
        index_entries(r) =~= Map::empty(),
{
    ahash::AHashMap::new()
}

/// Relies on `AHashMap::get`: the value stored under `k`, if any.
#[verifier::external_body]
pub(crate) fn index_get(m: &IdIndex, k: (usize, usize)) -> (r:
    Option<usize>)
    ensures
        match r {
            Some(v) => index_entries(*m).contains_key(k) && index_entries(*m)[k] == v,
            None => !index_entries(*m).contains_key(k),
        },
{
    m.get(&k).copied()
}

/// Relies on `AHashMap::insert`: `k` now maps to `v`, the other entries stay.
#[verifier::external_body]
pub(crate) fn index_insert(m: &mut IdIndex, k: (usize, usize), v: usize)
    ensures
        index_entries(*final(m)) == index_entries(*old(m)).insert(k, v),
{
    m.insert(k, v);
}

/// Relies on `AHashSet::new`: a new set is empty.
#[verifier::external_body]
pub(crate) fn members_new() -> (s: ahash::AHashSet<usize>)
    ensures
        set_members(s) == Set::<usize>::empty(),
{
    ahash::AHashSet::new()
}

/// Relies on `HashSet::insert` (through `AHashSet`'s `DerefMut`): adds `x`,
/// and tells whether it was absent.
#[verifier::external_body]
pub(crate) fn members_insert(s: &mut ahash::AHashSet<usize>, x: usize) -> (r: bool)
    ensures
        set_members(*final(s)) == set_members(*old(s)).insert(x),
        r == !set_members(*old(s)).contains(x),
{
    s.insert(x)
}

/// Relies on `HashSet::remove` (through `AHashSet`'s `DerefMut`): takes `x`
/// out, and tells whether it was present.
#[verifier::external_body]
pub(crate) fn members_remove(s: &mut ahash::AHashSet<usize>, x: usize) -> (r: bool)
    ensures
        set_members(*final(s)) == set_members(*old(s)).remove(x),
        r == set_members(*old(s)).contains(x),
{
    s.remove(&x)
}

/// Relies on `HashSet::contains` (through `AHashSet`'s `Deref`).
#[verifier::external_body]
pub(crate) fn members_contains(s: &ahash::AHashSet<usize>, x: usize) -> (r: bool)
    ensures
        r == set_members(*s).contains(x),
{
    s.contains(&x)
}

/// Relies on `HashSet::iter` (through `AHashSet`'s `Deref`): each member once,
/// in an order that the set does not promise.
#[verifier::external_body]
pub(crate) fn members_list(s: &ahash::AHashSet<usize>) -> (r: Vec<usize>)
    ensures
        r@.to_set() == set_members(*s),
        r@.no_duplicates(),
{
    s.iter().copied().collect()
}

} // verus!
