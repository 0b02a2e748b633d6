//! The user store: records in slots, found by the slot's index.
//!
//! The records live in a `slab::Slab`. The store's value is the map from each
//! occupied index to its record, and every contract here is stated over that
//! map. A new record goes to the lowest index that holds none.

use vstd::prelude::*;
use slab::Slab;
use crate::arena::{
    coherent, insert_lowest, lemma_coherent_bounds, lemma_coherent_new, lemma_views_dom,
    remove_slot, update_slot, views,
};
use crate::slots::{slab_contains, slab_get, slab_len, slab_new, slab_records, slab_vacancies};
use crate::user::{apply_update, UpdateUser, UpdateUserView, User, UserView};

verus! {

/// A store may hold this many records and no more: few enough that its slots
/// always fit into memory that can be addressed, and that every identifier
/// fits an `i64`.
pub const MAX_USERS: usize = usize::MAX / 1024;

/// Why a store operation did nothing.
#[derive(Debug, Clone, Copy, PartialEq, Eq, Structural)]
pub enum StoreError {
    /// No record lives under the identifier.
    NotFound,
}

/// Whether `id` is the lowest index at which `records` holds nothing.
pub open spec fn is_lowest_vacant(records: Map<int, UserView>, id: int) -> bool {
    &&& 0 <= id
    &&& !records.dom().contains(id)
    &&& forall|lower: int| 0 <= lower < id ==> records.dom().contains(lower)
}

/// The lowest index at which `records` holds nothing.
pub open spec fn lowest_vacant(records: Map<int, UserView>) -> int {
    choose|id: int| is_lowest_vacant(records, id)
}

/// No two indices are the lowest vacant one.
pub proof fn lemma_lowest_vacant_unique(records: Map<int, UserView>, a: int, b: int)
    requires
        is_lowest_vacant(records, a),
        is_lowest_vacant(records, b),
    ensures
        a == b,
        a == lowest_vacant(records),
{
    let chosen = lowest_vacant(records);
    assert(is_lowest_vacant(records, chosen));
    if a < b {
        assert(records.dom().contains(a));
    }
    if b < a {
        assert(records.dom().contains(b));
    }
    if a < chosen {
        assert(records.dom().contains(a));
    }
    if chosen < a {
        assert(records.dom().contains(chosen));
    }
}

proof fn lemma_vacant_from(records: Map<int, UserView>, from: int) -> (id: int)
    requires
        records.dom().finite(),
        0 <= from,
        forall|lower: int| 0 <= lower < from ==> records.dom().contains(lower),
    ensures
        is_lowest_vacant(records, id),
    decreases records.dom().len() - from,
{
    if records.dom().contains(from) {
        let upto = vstd::set_lib::set_int_range(0, from + 1);
        vstd::set_lib::lemma_int_range(0, from + 1);
        assert(upto.subset_of(records.dom()));
        vstd::set_lib::lemma_len_subset(upto, records.dom());
        lemma_vacant_from(records, from + 1)
    } else {
        from
    }
}

/// Finitely many records leave a lowest vacant identifier, and
/// `lowest_vacant` is that one.
pub proof fn lemma_lowest_vacant_exists(records: Map<int, UserView>)
    requires
        records.dom().finite(),
    ensures
        is_lowest_vacant(records, lowest_vacant(records)),
{
    let id = lemma_vacant_from(records, 0);
    lemma_lowest_vacant_unique(records, id, id);
}

/// The lowest vacant index is at most the number of records.
pub proof fn lemma_lowest_vacant_bounded(records: Map<int, UserView>, id: int)
    requires
        records.dom().finite(),
        is_lowest_vacant(records, id),
    ensures
        id <= records.dom().len(),
{
    let below = vstd::set_lib::set_int_range(0, id);
    vstd::set_lib::lemma_int_range(0, id);
    assert(below.subset_of(records.dom()));
    vstd::set_lib::lemma_len_subset(below, records.dom());
}


/// What a store with `records` answers when asked for the record under `id`.
pub open spec fn lookup(records: Map<int, UserView>, id: int) -> Result<UserView, StoreError> {
    if records.dom().contains(id) {
        Ok(records[id])
    } else {
        Err(StoreError::NotFound)
    }
}

/// What a store with `records` answers when told to change or remove the
/// record under `id`.
pub open spec fn presence(records: Map<int, UserView>, id: int) -> Result<(), StoreError> {
    if records.dom().contains(id) {
        Ok(())
    } else {
        Err(StoreError::NotFound)
    }
}

/// The records after `user` was inserted: it lives under the lowest
/// identifier that was vacant and carries that identifier in its `id` field,
/// and nothing else has changed.
pub open spec fn with_inserted(records: Map<int, UserView>, user: UserView) -> Map<int, UserView> {
    records.insert(lowest_vacant(records), user.with_id(lowest_vacant(records)))
}

/// The records after `update` was laid over the one under `id`. Where none
/// lives there, they are as before.
pub open spec fn with_updated(records: Map<int, UserView>, id: int, update: UpdateUserView) -> Map<
    int,
    UserView,
> {
    if records.dom().contains(id) {
        records.insert(id, apply_update(records[id], update))
    } else {
        records
    }
}

/// The records after the one under `id` was removed. Where none lives there,
/// they are as before.
pub open spec fn with_removed(records: Map<int, UserView>, id: int) -> Map<int, UserView> {
    records.remove(id)
}

/// The records of all live users, each under the identifier it was given.
///
/// An identifier is unique among the live records only: once a record is
/// removed, a later one may get its identifier.
pub struct UserStore {
    slab: Slab<User>,
}

impl View for UserStore {
    type V = Map<int, UserView>;

    closed spec fn view(&self) -> Map<int, UserView> {
        views(slab_records(self.slab))
    }
}

impl UserStore {
    /// Whether the store is in a state that its own operations can have left
    /// it in. `new` gives such a store and every operation keeps it so.
    pub closed spec fn wf(&self) -> bool {
        coherent(slab_records(self.slab), slab_vacancies(self.slab))
    }

    /// A store holds finitely many records, under identifiers from 0 up to,
    /// but not including, `MAX_USERS`.
    pub proof fn lemma_ids_bounded(&self)
        requires
            self.wf(),
        ensures
            self@.dom().finite(),
            self@.dom().len() <= MAX_USERS,
            forall|id: int| self@.dom().contains(id) ==> 0 <= id < MAX_USERS,
    {
        lemma_coherent_bounds(slab_records(self.slab), slab_vacancies(self.slab));
    }

    /// A store without records.
    pub fn new() -> (store: Self)
        ensures
            store.wf(),
            store@ == (Map::<int, UserView>::empty()),
    {
        let slab = slab_new();
        proof {
            lemma_coherent_new(slab_records(slab), slab_vacancies(slab));
        }
        UserStore { slab }
    }

    /// The number of live records.
    pub fn len(&self) -> (count: usize)
        ensures
            count == self@.dom().len(),
    {
        proof {
            lemma_views_dom(slab_records(self.slab));
        }
        slab_len(&self.slab)
    }

    /// Whether a record lives under `id`.
    pub fn contains(&self, id: usize) -> (live: bool)
        ensures
            live == self@.dom().contains(id as int),
    {
        proof {
            lemma_views_dom(slab_records(self.slab));
        }
        slab_contains(&self.slab, id)
    }

    /// Stores `user` under the lowest identifier that no live record has,
    /// with that identifier in its `id` field in place of what the caller put
    /// there, and returns the identifier. No other record changes.
    pub fn insert(&mut self, user: User) -> (id: usize)
        requires
            old(self).wf(),
            old(self)@.dom().len() < MAX_USERS,
        ensures
            final(self).wf(),
            is_lowest_vacant(old(self)@, id as int),
            id as int == lowest_vacant(old(self)@),
            final(self)@ == with_inserted(old(self)@, user@),
    {
        let id = insert_lowest(&mut self.slab, user);
        proof {
            lemma_lowest_vacant_unique(old(self)@, id as int, id as int);
        }
        id
    }

    /// A copy of the record under `id`, or `NotFound` where none lives there.
    pub fn get(&self, id: usize) -> (found: Result<User, StoreError>)
        ensures
            match found {
                Ok(user) => lookup(self@, id as int) == Ok::<UserView, StoreError>(user@),
                Err(error) => lookup(self@, id as int) == Err::<UserView, StoreError>(error),
            },
    {
        proof {
            lemma_views_dom(slab_records(self.slab));
        }
        match slab_get(&self.slab, id) {
            Some(user) => Ok(user.clone()),
            None => Err(StoreError::NotFound),
        }
    }

    /// Lays `update` over the record under `id`: the fields it names are
    /// overwritten, the others stay. Where no record lives under `id`,
    /// nothing changes and the result is `NotFound`.
    pub fn update(&mut self, id: usize, update: UpdateUser) -> (done: Result<(), StoreError>)
        requires
            old(self).wf(),
        ensures
            final(self).wf(),
            done == presence(old(self)@, id as int),
            final(self)@ == with_updated(old(self)@, id as int, update@),
    {
        update_slot(&mut self.slab, id, update)
    }

    /// Takes the record under `id` out of the store and frees the identifier.
    /// Where no record lives under `id`, nothing changes and the result is
    /// `NotFound`.
    pub fn remove(&mut self, id: usize) -> (done: Result<(), StoreError>)
        requires
            old(self).wf(),
        ensures
            final(self).wf(),
            done == presence(old(self)@, id as int),
            final(self)@ == with_removed(old(self)@, id as int),
    {
        remove_slot(&mut self.slab, id)
    }
}

} // verus!
