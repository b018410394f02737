use vstd::prelude::*;

use core::marker::PhantomData;

use crate::err::{ErrAlreadyRegistered, ErrCategoryAlreadyRegistered};
use crate::maps::{
    index_entries, index_get, index_insert, index_new, members_contains, members_insert,
    members_list, members_new, members_remove, set_members, IdIndex,
};
use crate::nsid::NamespacedID;

verus! {

/// Relies on `usize`'s `Hash`: feeds the integer to the hasher; nothing is
/// promised of the hasher's state.
pub assume_specification<H: core::hash::Hasher>[ <usize as core::hash::Hash>::hash::<H> ](
    v: &usize,
    state: &mut H,
);

/// Lightweight handle to an entry in a registry.
#[derive(Debug)]
pub struct RegistryHandle<T> {
    id: usize,
    nsid: NamespacedID,
    marker: PhantomData<T>,
}

impl<T> RegistryHandle<T> {
    /// The slot of the entry this handle addresses.
    pub closed spec fn index(&self) -> usize {
        self.id
    }

    /// The identifier the handle carries along.
    pub closed spec fn cached_nsid(&self) -> NamespacedID {
        self.nsid
    }

    fn new(id: usize, nsid: NamespacedID) -> (r: Self)
        ensures
            r.index() == id,
            r.cached_nsid() == nsid,
    {
        RegistryHandle { id, nsid, marker: PhantomData }
    }

    pub fn get_nsid(&self) -> (r: NamespacedID)
        ensures
            r == self.cached_nsid(),
    {
        self.nsid
    }
}

impl<T> PartialEq for RegistryHandle<T> {
    fn eq(&self, other: &Self) -> (r: bool)
        ensures
            r == (self.index() == other.index()),
    {
        self.id == other.id
    }
}

impl<T> vstd::std_specs::cmp::PartialEqSpecImpl for RegistryHandle<T> {
    open spec fn obeys_eq_spec() -> bool {
        true
    }

    open spec fn eq_spec(&self, other: &Self) -> bool {
        self.index() == other.index()
    }
}

impl<T> Eq for RegistryHandle<T> {

}

impl<T> Clone for RegistryHandle<T> {
    fn clone(&self) -> (r: Self)
        ensures
            r.index() == self.index(),
            r.cached_nsid() == self.cached_nsid(),
    {
        RegistryHandle { id: self.id, nsid: self.nsid, marker: PhantomData }
    }
}

impl<T> Copy for RegistryHandle<T> {

}

impl<T> core::hash::Hash for RegistryHandle<T> {
    fn hash<H: core::hash::Hasher>(&self, state: &mut H) {
        self.id.hash(state);
    }
}

/// Lightweight handle to a *category* of entries in a registry.
#[derive(Debug)]
pub struct CategoryHandle<T> {
    id: usize,
    nsid: NamespacedID,
    marker: PhantomData<T>,
}

impl<T> CategoryHandle<T> {
    /// The slot of the category this handle addresses.
    pub closed spec fn index(&self) -> usize {
        self.id
    }

    /// The identifier the handle carries along.
    pub closed spec fn cached_nsid(&self) -> NamespacedID {
        self.nsid
    }

    fn new(id: usize, nsid: NamespacedID) -> (r: Self)
        ensures
            r.index() == id,
            r.cached_nsid() == nsid,
    {
        CategoryHandle { id, nsid, marker: PhantomData }
    }

    pub fn get_nsid(&self) -> (r: NamespacedID)
        ensures
            r == self.cached_nsid(),
    {
        self.nsid
    }
}

impl<T> PartialEq for CategoryHandle<T> {
    fn eq(&self, other: &Self) -> (r: bool)
        ensures
            r == (self.index() == other.index()),
    {
        self.id == other.id
    }
}

impl<T> vstd::std_specs::cmp::PartialEqSpecImpl for CategoryHandle<T> {
    open spec fn obeys_eq_spec() -> bool {
        true
    }

    open spec fn eq_spec(&self, other: &Self) -> bool {
        self.index() == other.index()
    }
}

impl<T> Eq for CategoryHandle<T> {

}

impl<T> Clone for CategoryHandle<T> {
    fn clone(&self) -> (r: Self)
        ensures
            r.index() == self.index(),
            r.cached_nsid() == self.cached_nsid(),
    {
        CategoryHandle { id: self.id, nsid: self.nsid, marker: PhantomData }
    }
}

impl<T> Copy for CategoryHandle<T> {

}

impl<T> core::hash::Hash for CategoryHandle<T> {
    fn hash<H: core::hash::Hasher>(&self, state: &mut H) {
        self.id.hash(state);
    }
}

/// The slots that a list of handles addresses.
pub open spec fn handle_ids<T>(hs: Seq<RegistryHandle<T>>) -> Set<usize> {
    hs.map_values(|h: RegistryHandle<T>| h.index()).to_set()
}

/// An `index` that maps the identifier of each slot to that slot, and nothing else.
pub open spec fn indexes(index: Map<(usize, usize), usize>, names: Seq<NamespacedID>) -> bool {
    &&& forall|i: int|
        0 <= i < names.len() ==> #[trigger] index.contains_key(names[i].key())
            && index[names[i].key()] == i
    &&& forall|k: (usize, usize)|
        #[trigger] index.contains_key(k) ==> index[k] < names.len() && names[index[k] as int].key()
            == k
}

/// Values and categories of values, each registered once under an identifier.
pub struct Registry<T> {
    entries: Vec<(T, NamespacedID)>,
    nsid_map: IdIndex,
    categories: Vec<(ahash::AHashSet<usize>, NamespacedID)>,
    category_nsid_map: IdIndex,
}

impl<T> Registry<T> {
    /// The registered values, in order of registration.
    pub closed spec fn values(&self) -> Seq<T> {
        self.entries@.map_values(|e: (T, NamespacedID)| e.0)
    }

    /// The identifier of each registered value.
    pub closed spec fn names(&self) -> Seq<NamespacedID> {
        self.entries@.map_values(|e: (T, NamespacedID)| e.1)
    }

    /// The identifier index of the values.
    pub closed spec fn index(&self) -> Map<(usize, usize), usize> {
        index_entries(self.nsid_map)
    }

    /// The identifier of each category, in order of registration.
    pub closed spec fn category_names(&self) -> Seq<NamespacedID> {
        self.categories@.map_values(|c: (ahash::AHashSet<usize>, NamespacedID)| c.1)
    }

    /// The value slots that each category holds.
    pub closed spec fn members(&self) -> Seq<Set<usize>> {
        self.categories@.map_values(|c: (ahash::AHashSet<usize>, NamespacedID)| set_members(c.0))
    }

    /// The identifier index of the categories.
    pub closed spec fn category_index(&self) -> Map<(usize, usize), usize> {
        index_entries(self.category_nsid_map)
    }

    pub open spec fn wf(&self) -> bool {
        &&& self.values().len() == self.names().len()
        &&& self.members().len() == self.category_names().len()
        &&& indexes(self.index(), self.names())
        &&& indexes(self.category_index(), self.category_names())
        &&& forall|c: int, e: usize|
            0 <= c < self.members().len() && #[trigger] self.members()[c].contains(e) ==> e
                < self.values().len()
    }

    pub open spec fn is_registered(&self, nsid: NamespacedID) -> bool {
        self.index().contains_key(nsid.key())
    }

    pub open spec fn is_category_registered(&self, nsid: NamespacedID) -> bool {
        self.category_index().contains_key(nsid.key())
    }

    /// `h` addresses a value of this registry.
    pub open spec fn holds(&self, h: RegistryHandle<T>) -> bool {
        h.index() < self.values().len()
    }

    /// `c` addresses a category of this registry.
    pub open spec fn holds_category(&self, c: CategoryHandle<T>) -> bool {
        c.index() < self.category_names().len()
    }

    /// The values, their identifiers and the index are those of `other`.
    pub open spec fn same_values(&self, other: &Self) -> bool {
        &&& self.values() == other.values()
        &&& self.names() == other.names()
        &&& self.index() == other.index()
    }

    /// The categories, their members and the category index are those of `other`.
    pub open spec fn same_categories(&self, other: &Self) -> bool {
        &&& self.category_names() == other.category_names()
        &&& self.members() == other.members()
        &&& self.category_index() == other.category_index()
    }

    /// Everything registered in `earlier` is still here, unchanged; category
    /// membership may have changed.
    pub open spec fn extends(&self, earlier: &Self) -> bool {
        &&& earlier.values().is_prefix_of(self.values())
        &&& earlier.names().is_prefix_of(self.names())
        &&& earlier.index().submap_of(self.index())
        &&& earlier.category_names().is_prefix_of(self.category_names())
        &&& earlier.category_index().submap_of(self.category_index())
    }

    pub fn new() -> (r: Self)
        ensures
            r.wf(),
            r.values() == Seq::<T>::empty(),
            r.names() == Seq::<NamespacedID>::empty(),
            r.category_names() == Seq::<NamespacedID>::empty(),
    {
        let r = Registry {
            entries: Vec::new(),
            nsid_map: index_new(),
            categories: Vec::new(),
            category_nsid_map: index_new(),
        };
        proof {
            assert(r.values() =~= Seq::<T>::empty());
            assert(r.names() =~= Seq::<NamespacedID>::empty());
            assert(r.category_names() =~= Seq::<NamespacedID>::empty());
            assert(r.members() =~= Seq::<Set<usize>>::empty());
        }
        r
    }

    /// Registers `entry` under `nsid`, unless a value is already registered under it.
    pub fn register(&mut self, entry: T, nsid: NamespacedID) -> (r: Result<
        RegistryHandle<T>,
        ErrAlreadyRegistered,
    >)
        requires
            old(self).wf(),
        ensures
            final(self).wf(),
            final(self).extends(old(self)),
            final(self).same_categories(old(self)),
            old(self).is_registered(nsid) ==> r is Err && final(self).same_values(old(self)),
            !old(self).is_registered(nsid) ==> match r {
                Ok(h) => {
                    &&& h.index() == old(self).values().len()
                    &&& h.cached_nsid() == nsid
                    &&& final(self).values() == old(self).values().push(entry)
                    &&& final(self).names() == old(self).names().push(nsid)
                    &&& final(self).index() == old(self).index().insert(
                        nsid.key(),
                        h.index(),
                    )
                },
                Err(_) => false,
            },
    {
        let key = nsid.tokens();
        if index_get(&self.nsid_map, key).is_some() {
            return Err(ErrAlreadyRegistered);
        }
        let id = self.entries.len();
        self.entries.push((entry, nsid));
        index_insert(&mut self.nsid_map, key, id);
        proof {
            assert(self.values() =~= old(self).values().push(entry));
            assert(self.names() =~= old(self).names().push(nsid));
            assert(self.members() =~= old(self).members());
            let names = self.names();
            let index = self.index();
            assert forall|i: int| 0 <= i < names.len() implies #[trigger] index.contains_key(
                names[i].key(),
            ) && index[names[i].key()] == i by {
                if i < id {
                    assert(names[i] == old(self).names()[i]);
                }
            }
            assert(indexes(index, names));
        }
        Ok(RegistryHandle::new(id, nsid))
    }

    /// Registers a category under `nsid` holding the entries of `entries`
    /// (a repeated handle counts once), unless one is already registered under it.
    pub fn register_category(&mut self, nsid: NamespacedID, entries: Vec<RegistryHandle<T>>) -> (r:
        Result<CategoryHandle<T>, ErrCategoryAlreadyRegistered>)
        requires
            old(self).wf(),
            forall|i: int| 0 <= i < entries@.len() ==> old(self).holds(#[trigger] entries@[i]),
        ensures
            final(self).wf(),
            final(self).extends(old(self)),
            final(self).same_values(old(self)),
            old(self).is_category_registered(nsid) ==> r is Err && final(self).same_categories(
                old(self),
            ),
            !old(self).is_category_registered(nsid) ==> match r {
                Ok(c) => {
                    &&& c.index() == old(self).category_names().len()
                    &&& c.cached_nsid() == nsid
                    &&& final(self).category_names() == old(self).category_names().push(nsid)
                    &&& final(self).members() == old(self).members().push(handle_ids(entries@))
                    &&& final(self).category_index() == old(self).category_index().insert(
                        nsid.key(),
                        c.index(),
                    )
                },
                Err(_) => false,
            },
    {
        let key = nsid.tokens();
        if index_get(&self.category_nsid_map, key).is_some() {
            return Err(ErrCategoryAlreadyRegistered);
        }
        let mut set = members_new();
        let mut i: usize = 0;
        while i < entries.len()
            invariant
                i <= entries@.len(),
                set_members(set) == handle_ids(entries@.take(i as int)),
            decreases entries@.len() - i,
        {
            members_insert(&mut set, entries[i].id);
            proof {
                let hs = entries@.take(i as int + 1);
                assert(hs.map_values(|h: RegistryHandle<T>| h.index()) =~= entries@.take(
                    i as int,
                ).map_values(|h: RegistryHandle<T>| h.index()).push(entries@[i as int].index()));
                entries@.take(i as int).map_values(|h: RegistryHandle<T>| h.index())
                    .lemma_push_to_set_commute(entries@[i as int].index());
            }
            i = i + 1;
        }
        proof {
            assert(entries@.take(entries@.len() as int) =~= entries@);
        }
        let id = self.categories.len();
        self.categories.push((set, nsid));
        index_insert(&mut self.category_nsid_map, key, id);
        proof {
            assert(self.category_names() =~= old(self).category_names().push(nsid));
            assert(self.members() =~= old(self).members().push(handle_ids(entries@)));
            assert(self.values() =~= old(self).values());
            assert(self.names() =~= old(self).names());
            let names = self.category_names();
            let index = self.category_index();
            assert forall|i: int| 0 <= i < names.len() implies #[trigger] index.contains_key(
                names[i].key(),
            ) && index[names[i].key()] == i by {
                if i < id {
                    assert(names[i] == old(self).category_names()[i]);
                }
            }
            assert(indexes(index, names));
            assert forall|c: int, e: usize|
                0 <= c < self.members().len() && #[trigger] self.members()[c].contains(
                    e,
                ) implies e < self.values().len() by {
                if c == id {
                    let ids = entries@.map_values(|h: RegistryHandle<T>| h.index());
                    assert(ids.contains(e));
                    let j = choose|j: int| 0 <= j < ids.len() && ids[j] == e;
                    assert(old(self).holds(entries@[j]));
                } else {
                    assert(self.members()[c] == old(self).members()[c]);
                }
            }
        }
        Ok(CategoryHandle::new(id, nsid))
    }

    /// Registers an empty category under `nsid`, unless one is already registered under it.
    pub fn register_empty_category(&mut self, nsid: NamespacedID) -> (r: Result<
        CategoryHandle<T>,
        ErrCategoryAlreadyRegistered,
    >)
        requires
            old(self).wf(),
        ensures
            final(self).wf(),
            final(self).extends(old(self)),
            final(self).same_values(old(self)),
            old(self).is_category_registered(nsid) ==> r is Err && final(self).same_categories(
                old(self),
            ),
            !old(self).is_category_registered(nsid) ==> match r {
                Ok(c) => {
                    &&& c.index() == old(self).category_names().len()
                    &&& c.cached_nsid() == nsid
                    &&& final(self).category_names() == old(self).category_names().push(nsid)
                    &&& final(self).members() == old(self).members().push(Set::<usize>::empty())
                    &&& final(self).category_index() == old(self).category_index().insert(
                        nsid.key(),
                        c.index(),
                    )
                },
                Err(_) => false,
            },
    {
        let none: Vec<RegistryHandle<T>> = Vec::new();
        proof {
            assert(handle_ids(none@) =~= Set::<usize>::empty());
        }
        self.register_category(nsid, none)
    }
}


impl<T> Registry<T> {
    /// Adds `entry` to `category`; an entry already there stays once.
    pub fn insert_into_category(&mut self, category: CategoryHandle<T>, entry: RegistryHandle<T>)
        requires
            old(self).wf(),
            old(self).holds_category(category),
            old(self).holds(entry),
        ensures
            final(self).wf(),
            final(self).extends(old(self)),
            final(self).same_values(old(self)),
            final(self).category_names() == old(self).category_names(),
            final(self).category_index() == old(self).category_index(),
            final(self).members() == old(self).members().update(
                category.index() as int,
                old(self).members()[category.index() as int].insert(entry.index()),
            ),
    {
        let slot = &mut self.categories[category.id];
        members_insert(&mut slot.0, entry.id);
        proof {
            self.lemma_member_update(*old(self), category.index() as int);
        }
    }

    /// Adds each entry of `entries` to `category`; entries already there stay once.
    pub fn insert_many_into_category(
        &mut self,
        category: CategoryHandle<T>,
        entries: Vec<RegistryHandle<T>>,
    )
        requires
            old(self).wf(),
            old(self).holds_category(category),
            forall|i: int| 0 <= i < entries@.len() ==> old(self).holds(#[trigger] entries@[i]),
        ensures
            final(self).wf(),
            final(self).extends(old(self)),
            final(self).same_values(old(self)),
            final(self).category_names() == old(self).category_names(),
            final(self).category_index() == old(self).category_index(),
            final(self).members() == old(self).members().update(
                category.index() as int,
                old(self).members()[category.index() as int].union(handle_ids(entries@)),
            ),
    {
        let ghost c = category.index() as int;
        proof {
            assert(entries@.take(0).map_values(|h: RegistryHandle<T>| h.index()) =~= Seq::<
                usize,
            >::empty());
            assert(old(self).members()[c].union(handle_ids(entries@.take(0))) =~= old(
                self,
            ).members()[c]);
            assert(self.members() =~= old(self).members().update(
                c,
                old(self).members()[c].union(handle_ids(entries@.take(0))),
            ));
        }
        let mut i: usize = 0;
        while i < entries.len()
            invariant
                i <= entries@.len(),
                c == category.index() as int,
                old(self).wf(),
                old(self).holds_category(category),
                self.wf(),
                self.extends(old(self)),
                self.same_values(old(self)),
                self.category_names() == old(self).category_names(),
                self.category_index() == old(self).category_index(),
                self.holds_category(category),
                forall|j: int| 0 <= j < entries@.len() ==> old(self).holds(#[trigger] entries@[j]),
                self.members() == old(self).members().update(
                    c,
                    old(self).members()[c].union(handle_ids(entries@.take(i as int))),
                ),
            decreases entries@.len() - i,
        {
            let h = entries[i].id;
            let ghost prev = self.members();
            self.insert_into_category(
                CategoryHandle::new(category.id, category.nsid),
                RegistryHandle::new(h, entries[i].nsid),
            );
            proof {
                let hs = entries@.take(i as int + 1);
                assert(hs.map_values(|h: RegistryHandle<T>| h.index()) =~= entries@.take(
                    i as int,
                ).map_values(|h: RegistryHandle<T>| h.index()).push(entries@[i as int].index()));
                entries@.take(i as int).map_values(|h: RegistryHandle<T>| h.index())
                    .lemma_push_to_set_commute(entries@[i as int].index());
                assert(old(self).members()[c].union(handle_ids(hs)) =~= old(self).members()[c].union(
                    handle_ids(entries@.take(i as int)),
                ).insert(h));
                assert(prev[c] == old(self).members()[c].union(handle_ids(entries@.take(i as int))));
                assert(self.members() =~= old(self).members().update(
                    c,
                    old(self).members()[c].union(handle_ids(hs)),
                ));
            }
            i = i + 1;
        }
        proof {
            assert(entries@.take(entries@.len() as int) =~= entries@);
        }
    }

    /// Takes `entry` out of `category`; tells whether it was there.
    pub fn remove_from_category(&mut self, category: CategoryHandle<T>, entry: RegistryHandle<T>) -> (r:
        bool)
        requires
            old(self).wf(),
            old(self).holds_category(category),
        ensures
            final(self).wf(),
            final(self).extends(old(self)),
            final(self).same_values(old(self)),
            final(self).category_names() == old(self).category_names(),
            final(self).category_index() == old(self).category_index(),
            r == old(self).members()[category.index() as int].contains(entry.index()),
            final(self).members() == old(self).members().update(
                category.index() as int,
                old(self).members()[category.index() as int].remove(entry.index()),
            ),
    {
        let slot = &mut self.categories[category.id];
        let r = members_remove(&mut slot.0, entry.id);
        proof {
            self.lemma_member_update(*old(self), category.index() as int);
        }
        r
    }

    /// After the member set of one category changed, with members still in
    /// range, the registry is well formed and extends what it was.
    proof fn lemma_member_update(&self, before: Self, c: int)
        requires
            before.wf(),
            0 <= c < before.categories@.len(),
            self.entries == before.entries,
            self.nsid_map == before.nsid_map,
            self.category_nsid_map == before.category_nsid_map,
            self.categories@.len() == before.categories@.len(),
            self.categories@[c].1 == before.categories@[c].1,
            forall|e: usize| #[trigger]
                set_members(self.categories@[c].0).contains(e) ==> set_members(
                    before.categories@[c].0,
                ).contains(e) || e < before.values().len(),
            forall|d: int| 0 <= d < self.categories@.len() && d != c ==> #[trigger] self.categories@[d]
                == before.categories@[d],
        ensures
            self.wf(),
            self.extends(&before),
            self.same_values(&before),
            self.category_names() == before.category_names(),
            self.category_index() == before.category_index(),
            self.members() == before.members().update(c, set_members(self.categories@[c].0)),
    {
        assert(self.category_names() =~= before.category_names());
        assert(self.members() =~= before.members().update(c, set_members(self.categories@[c].0)));
        assert forall|d: int, e: usize|
            0 <= d < self.members().len() && #[trigger] self.members()[d].contains(e) implies e
                < self.values().len() by {
            if d != c {
                assert(before.members()[d].contains(e));
            } else if set_members(before.categories@[c].0).contains(e) {
                assert(before.members()[c].contains(e));
            }
        }
    }

    /// The value `handle` addresses.
    pub fn lookup(&self, handle: RegistryHandle<T>) -> (r: &T)
        requires
            self.wf(),
            self.holds(handle),
        ensures
            *r == self.values()[handle.index() as int],
    {
        &self.entries[handle.id].0
    }

    /// The identifier of the value `handle` addresses.
    pub fn get_nsid(&self, handle: RegistryHandle<T>) -> (r: NamespacedID)
        requires
            self.wf(),
            self.holds(handle),
        ensures
            r == self.names()[handle.index() as int],
    {
        self.entries[handle.id].1
    }

    /// The value registered under `nsid`, if any.
    pub fn lookup_by_nsid(&self, nsid: NamespacedID) -> (r: Option<&T>)
        requires
            self.wf(),
        ensures
            match r {
                Some(v) => self.is_registered(nsid) && *v == self.values()[self.index()[nsid.key()] as int],
                None => !self.is_registered(nsid),
            },
    {
        match index_get(&self.nsid_map, nsid.tokens()) {
            Some(id) => Some(&self.entries[id].0),
            None => None,
        }
    }

    /// A handle to the value registered under `nsid`, if any.
    pub fn validate_nsid(&self, nsid: NamespacedID) -> (r: Option<RegistryHandle<T>>)
        requires
            self.wf(),
        ensures
            match r {
                Some(h) => {
                    &&& self.is_registered(nsid)
                    &&& h.index() == self.index()[nsid.key()]
                    &&& self.holds(h)
                    &&& h.cached_nsid() == nsid
                },
                None => !self.is_registered(nsid),
            },
    {
        match index_get(&self.nsid_map, nsid.tokens()) {
            Some(id) => Some(RegistryHandle::new(id, nsid)),
            None => None,
        }
    }

    /// Every value with its handle, in order of registration.
    pub fn iter(&self) -> (r: Vec<(&T, RegistryHandle<T>)>)
        requires
            self.wf(),
        ensures
            r@.len() == self.values().len(),
            forall|i: int|
                0 <= i < r@.len() ==> {
                    &&& *(#[trigger] r@[i]).0 == self.values()[i]
                    &&& r@[i].1.index() == i
                    &&& r@[i].1.cached_nsid() == self.names()[i]
                },
    {
        let mut out: Vec<(&T, RegistryHandle<T>)> = Vec::new();
        let mut i: usize = 0;
        while i < self.entries.len()
            invariant
                self.wf(),
                i <= self.entries@.len(),
                out@.len() == i,
                forall|j: int|
                    0 <= j < i ==> {
                        &&& *(#[trigger] out@[j]).0 == self.values()[j]
                        &&& out@[j].1.index() == j
                        &&& out@[j].1.cached_nsid() == self.names()[j]
                    },
            decreases self.entries@.len() - i,
        {
            let e = &self.entries[i];
            out.push((&e.0, RegistryHandle::new(i, e.1)));
            i = i + 1;
        }
        out
    }

    /// Each member of `category` with its handle, each once, in the set's order.
    pub fn lookup_category(&self, category: CategoryHandle<T>) -> (r: Vec<(&T, RegistryHandle<T>)>)
        requires
            self.wf(),
            self.holds_category(category),
        ensures
            self.lists_members(r@, category.index() as int),
    {
        self.members_of(category.id)
    }

    /// `r` lists each member of category `c` once, with its value and its identifier.
    pub open spec fn lists_members(&self, r: Seq<(&T, RegistryHandle<T>)>, c: int) -> bool {
        &&& r.map_values(|x: (&T, RegistryHandle<T>)| x.1.index()).no_duplicates()
        &&& r.map_values(|x: (&T, RegistryHandle<T>)| x.1.index()).to_set() == self.members()[c]
        &&& forall|i: int|
            0 <= i < r.len() ==> {
                &&& self.holds((#[trigger] r[i]).1)
                &&& *r[i].0 == self.values()[r[i].1.index() as int]
                &&& r[i].1.cached_nsid() == self.names()[r[i].1.index() as int]
            }
    }

    fn members_of(&self, c: usize) -> (r: Vec<(&T, RegistryHandle<T>)>)
        requires
            self.wf(),
            c < self.category_names().len(),
        ensures
            self.lists_members(r@, c as int),
    {
        let ids = members_list(&self.categories[c].0);
        let ghost members = self.members()[c as int];
        assert(set_members(self.categories@[c as int].0) == members);
        let mut out: Vec<(&T, RegistryHandle<T>)> = Vec::new();
        let mut i: usize = 0;
        while i < ids.len()
            invariant
                self.wf(),
                c < self.category_names().len(),
                members == self.members()[c as int],
                ids@.to_set() == members,
                ids@.no_duplicates(),
                i <= ids@.len(),
                out@.len() == i,
                out@.map_values(|x: (&T, RegistryHandle<T>)| x.1.index()) == ids@.take(i as int),
                forall|j: int|
                    0 <= j < i ==> {
                        &&& self.holds((#[trigger] out@[j]).1)
                        &&& *out@[j].0 == self.values()[out@[j].1.index() as int]
                        &&& out@[j].1.cached_nsid() == self.names()[out@[j].1.index() as int]
                    },
            decreases ids@.len() - i,
        {
            let id = ids[i];
            proof {
                assert(ids@.to_set().contains(ids@[i as int]));
                assert(self.members()[c as int].contains(id));
            }
            let e = &self.entries[id];
            out.push((&e.0, RegistryHandle::new(id, e.1)));
            proof {
                assert(out@.map_values(|x: (&T, RegistryHandle<T>)| x.1.index()) =~= ids@.take(
                    i as int + 1,
                ));
            }
            i = i + 1;
        }
        proof {
            assert(ids@.take(ids@.len() as int) =~= ids@);
        }
        out
    }

    /// The members of the category registered under `nsid`, if there is one.
    pub fn lookup_category_by_nsid(&self, nsid: NamespacedID) -> (r: Option<
        Vec<(&T, RegistryHandle<T>)>,
    >)
        requires
            self.wf(),
        ensures
            match r {
                Some(v) => self.is_category_registered(nsid) && self.lists_members(
                    v@,
                    self.category_index()[nsid.key()] as int,
                ),
                None => !self.is_category_registered(nsid),
            },
    {
        match index_get(&self.category_nsid_map, nsid.tokens()) {
            Some(c) => Some(self.members_of(c)),
            None => None,
        }
    }

    /// A handle to the category registered under `nsid`, if any.
    pub fn validate_category_nsid(&self, nsid: NamespacedID) -> (r: Option<CategoryHandle<T>>)
        requires
            self.wf(),
        ensures
            match r {
                Some(c) => {
                    &&& self.is_category_registered(nsid)
                    &&& c.index() == self.category_index()[nsid.key()]
                    &&& self.holds_category(c)
                    &&& c.cached_nsid() == nsid
                },
                None => !self.is_category_registered(nsid),
            },
    {
        match index_get(&self.category_nsid_map, nsid.tokens()) {
            Some(id) => Some(CategoryHandle::new(id, nsid)),
            None => None,
        }
    }

    /// Whether `entry` is a member of `category`.
    pub fn is_in_category(&self, entry: RegistryHandle<T>, category: CategoryHandle<T>) -> (r: bool)
        requires
            self.wf(),
            self.holds_category(category),
        ensures
            r == self.members()[category.index() as int].contains(entry.index()),
    {
        members_contains(&self.categories[category.id].0, entry.id)
    }
}

impl<T: Default> Registry<T> {
    /// Registers a default value under `nsid`, unless a value is already registered under it.
    pub fn register_default(&mut self, nsid: NamespacedID) -> (r: Result<
        RegistryHandle<T>,
        ErrAlreadyRegistered,
    >)
        requires
            old(self).wf(),
        ensures
            final(self).wf(),
            final(self).extends(old(self)),
            final(self).same_categories(old(self)),
            old(self).is_registered(nsid) ==> r is Err && final(self).same_values(old(self)),
            !old(self).is_registered(nsid) ==> match r {
                Ok(h) => {
                    &&& h.index() == old(self).values().len()
                    &&& h.cached_nsid() == nsid
                    &&& final(self).values().len() == old(self).values().len() + 1
                    &&& old(self).values().is_prefix_of(final(self).values())
                    &&& call_ensures(T::default, (), final(self).values()[h.index() as int])
                    &&& final(self).names() == old(self).names().push(nsid)
                    &&& final(self).index() == old(self).index().insert(
                        nsid.key(),
                        h.index(),
                    )
                },
                Err(_) => false,
            },
    {
        let d = T::default();
        self.register(d, nsid)
    }
}

impl<T> Default for Registry<T> {
    fn default() -> (r: Self)
        ensures
            r.wf(),
            r.values() == Seq::<T>::empty(),
            r.names() == Seq::<NamespacedID>::empty(),
            r.category_names() == Seq::<NamespacedID>::empty(),
    {
        Self::new()
    }
}

// ---------------------------------------------------------------------------
// Laws
// ---------------------------------------------------------------------------

/// A registry extends itself, and extending is transitive.
pub proof fn lemma_extends_transitive<T>(r0: Registry<T>, r1: Registry<T>, r2: Registry<T>)
    requires
        r1.extends(&r0),
        r2.extends(&r1),
    ensures
        r0.extends(&r0),
        r2.extends(&r0),
{
    assert forall|k: (usize, usize)| #[trigger]
        r0.index().dom().contains(k) implies r2.index().dom().contains(k) && r0.index()[k]
        == r2.index()[k] by {
        assert(r1.index().dom().contains(k));
        assert(r0.index()[k] == r1.index()[k]);
        assert(r2.index().dom().contains(k));
    }
    assert forall|k: (usize, usize)| #[trigger]
        r0.category_index().dom().contains(k) implies r2.category_index().dom().contains(k)
        && r0.category_index()[k] == r2.category_index()[k] by {
        assert(r1.category_index().dom().contains(k));
        assert(r0.category_index()[k] == r1.category_index()[k]);
        assert(r2.category_index().dom().contains(k));
    }
    lemma_prefix_transitive(r0.values(), r1.values(), r2.values());
    lemma_prefix_transitive(r0.names(), r1.names(), r2.names());
    lemma_prefix_transitive(r0.category_names(), r1.category_names(), r2.category_names());
    assert(r0.values() =~= r0.values().subrange(0, r0.values().len() as int));
    assert(r0.names() =~= r0.names().subrange(0, r0.names().len() as int));
    assert(r0.category_names() =~= r0.category_names().subrange(
        0,
        r0.category_names().len() as int,
    ));
}

proof fn lemma_prefix_transitive<A>(a: Seq<A>, b: Seq<A>, c: Seq<A>)
    requires
        a.is_prefix_of(b),
        b.is_prefix_of(c),
    ensures
        a.is_prefix_of(c),
{
    assert forall|i: int| 0 <= i < a.len() implies a[i] == c.subrange(0, a.len() as int)[i] by {
        assert(a[i] == b.subrange(0, a.len() as int)[i]);
        assert(b[i] == c.subrange(0, b.len() as int)[i]);
    }
    assert(a =~= c.subrange(0, a.len() as int));
}

/// An identifier once registered stays registered, to the same slot, in every
/// later state; so registering it again fails.
pub proof fn lemma_registration_unique<T>(r0: Registry<T>, r1: Registry<T>, nsid: NamespacedID)
    requires
        r1.extends(&r0),
        r0.is_registered(nsid),
    ensures
        r1.is_registered(nsid),
        r1.index()[nsid.key()] == r0.index()[nsid.key()],
{
    assert(r0.index().dom().contains(nsid.key()));
}

/// A handle stays valid, and keeps addressing the same value and identifier,
/// in every later state of the registry that issued it.
pub proof fn lemma_handle_total<T>(r0: Registry<T>, r1: Registry<T>, h: RegistryHandle<T>)
    requires
        r1.extends(&r0),
        r0.wf(),
        r0.holds(h),
    ensures
        r1.holds(h),
        r1.values()[h.index() as int] == r0.values()[h.index() as int],
        r1.names()[h.index() as int] == r0.names()[h.index() as int],
{
    let i = h.index() as int;
    assert(r0.values()[i] == r1.values().subrange(0, r0.values().len() as int)[i]);
    assert(r0.names()[i] == r1.names().subrange(0, r0.names().len() as int)[i]);
}

/// Inserting an entry into a category a second time leaves the membership as
/// the first insertion left it, with the entry a member after each.
pub proof fn lemma_insert_idempotent<T>(
    r0: Registry<T>,
    r1: Registry<T>,
    r2: Registry<T>,
    c: int,
    e: usize,
)
    requires
        0 <= c < r0.members().len(),
        r1.members() == r0.members().update(c, r0.members()[c].insert(e)),
        r2.members() == r1.members().update(c, r1.members()[c].insert(e)),
    ensures
        r2.members() == r1.members(),
        r1.members()[c].contains(e),
        r2.members()[c].contains(e),
{
    assert(r1.members()[c].insert(e) =~= r1.members()[c]);
    assert(r2.members() =~= r1.members());
}

/// Listing the members of a category yields each member exactly once.
pub proof fn lemma_member_listed_once<T>(
    reg: Registry<T>,
    r: Seq<(&T, RegistryHandle<T>)>,
    c: int,
    e: usize,
)
    requires
        reg.lists_members(r, c),
        reg.members()[c].contains(e),
    ensures
        exists|i: int|
            0 <= i < r.len() && r[i].1.index() == e && forall|j: int|
                0 <= j < r.len() && #[trigger] r[j].1.index() == e ==> j == i,
{
    let ids = r.map_values(|x: (&T, RegistryHandle<T>)| x.1.index());
    assert(ids.to_set().contains(e));
    assert(ids.contains(e));
    let i = choose|i: int| 0 <= i < ids.len() && ids[i] == e;
    assert forall|j: int| 0 <= j < r.len() && #[trigger] r[j].1.index() == e implies j == i by {
        assert(ids[j] == e);
    }
    assert(r[i].1.index() == e);
}

} // verus!
