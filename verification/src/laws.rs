//! What holds of the store's operations taken together.
//!
//! Each statement is over the records a store holds and the functions by which
//! the operations' contracts say what they return and leave behind, so it
//! holds of every store and every sequence of calls.

use vstd::prelude::*;
use crate::store::{
    is_lowest_vacant, lemma_lowest_vacant_exists, lemma_lowest_vacant_unique, lookup,
    lowest_vacant, presence, with_inserted, with_removed, with_updated, StoreError,
};
use crate::user::{apply_update, UpdateUserView, UserView};

verus! {

/// A record that was inserted is found under the identifier that the
/// insertion returned: with name, password and e-mail address as they were
/// handed in, and with that identifier in its `id` field.
pub proof fn law_insert_then_get(records: Map<int, UserView>, user: UserView)
    ensures
        lookup(with_inserted(records, user), lowest_vacant(records)) == Ok::<UserView, StoreError>(
            user.with_id(lowest_vacant(records)),
        ),
        user.with_id(lowest_vacant(records)).name == user.name,
        user.with_id(lowest_vacant(records)).password == user.password,
        user.with_id(lowest_vacant(records)).email == user.email,
{
}

/// The identifier that an insertion returns is not negative and was vacant,
/// and the insertion adds that identifier to the live ones and no other.
pub proof fn law_insert_takes_a_vacant_id(records: Map<int, UserView>, user: UserView)
    requires
        records.dom().finite(),
    ensures
        0 <= lowest_vacant(records),
        !records.dom().contains(lowest_vacant(records)),
        with_inserted(records, user).dom() == records.dom().insert(lowest_vacant(records)),
        with_inserted(records, user).dom().len() == records.dom().len() + 1,
{
    lemma_lowest_vacant_exists(records);
}

/// An insertion neither moves nor changes a record that was there before.
pub proof fn law_insert_keeps_others(records: Map<int, UserView>, user: UserView, id: int)
    requires
        records.dom().finite(),
        records.dom().contains(id),
    ensures
        lookup(with_inserted(records, user), id) == lookup(records, id),
{
    lemma_lowest_vacant_exists(records);
}

/// Under an identifier that no record has, a lookup, an update and a removal
/// all answer `NotFound`, and the latter two leave the records as they were.
pub proof fn law_vacant_id_not_found(records: Map<int, UserView>, id: int, update: UpdateUserView)
    requires
        !records.dom().contains(id),
    ensures
        lookup(records, id) == Err::<UserView, StoreError>(StoreError::NotFound),
        presence(records, id) == Err::<(), StoreError>(StoreError::NotFound),
        with_updated(records, id, update) == records,
        with_removed(records, id) == records,
{
    assert(records.remove(id) =~= records);
}

/// Of two removals of the same identifier in a row the first succeeds and the
/// second answers `NotFound` and changes nothing.
pub proof fn law_remove_twice(records: Map<int, UserView>, id: int)
    requires
        records.dom().contains(id),
    ensures
        presence(records, id) == Ok::<(), StoreError>(()),
        presence(with_removed(records, id), id) == Err::<(), StoreError>(StoreError::NotFound),
        with_removed(with_removed(records, id), id) == with_removed(records, id),
{
    assert(records.remove(id).remove(id) =~= records.remove(id));
}

/// After a removal the next insertion gets the removed identifier, unless a
/// lower one was vacant already, which it then gets instead.
pub proof fn law_next_id_after_remove(records: Map<int, UserView>, id: int)
    requires
        records.dom().finite(),
        records.dom().contains(id),
        0 <= id,
    ensures
        lowest_vacant(with_removed(records, id)) == if lowest_vacant(records) < id {
            lowest_vacant(records)
        } else {
            id
        },
{
    lemma_lowest_vacant_exists(records);
    let before = lowest_vacant(records);
    let after = records.remove(id);
    let next = if before < id {
        before
    } else {
        id
    };
    assert(is_lowest_vacant(after, next)) by {
        assert forall|lower: int| 0 <= lower < next implies after.dom().contains(lower) by {
            if before < id {
                assert(records.dom().contains(lower));
            } else {
                if !records.dom().contains(lower) {
                    lemma_vacant_below(records, lower);
                }
            }
        }
    }
    lemma_lowest_vacant_unique(after, next, next);
}

proof fn lemma_vacant_below(records: Map<int, UserView>, vacant: int)
    requires
        records.dom().finite(),
        0 <= vacant,
        !records.dom().contains(vacant),
    ensures
        lowest_vacant(records) <= vacant,
{
    lemma_lowest_vacant_exists(records);
    if vacant < lowest_vacant(records) {
        assert(records.dom().contains(vacant));
    }
}

/// Slot reuse: where every identifier below `id` is taken, a record that is
/// inserted right after the one under `id` was removed gets that identifier,
/// and what is found under it from then on is the new record.
pub proof fn law_slot_reuse(records: Map<int, UserView>, id: int, user: UserView)
    requires
        records.dom().finite(),
        records.dom().contains(id),
        0 <= id,
        forall|lower: int| 0 <= lower < id ==> records.dom().contains(lower),
    ensures
        lowest_vacant(with_removed(records, id)) == id,
        lookup(with_inserted(with_removed(records, id), user), id) == Ok::<UserView, StoreError>(
            user.with_id(id),
        ),
{
    let after = records.remove(id);
    assert(is_lowest_vacant(after, id));
    lemma_lowest_vacant_unique(after, id, id);
}

/// An update that names a field overwrites that field and no other: with a
/// name and no password, the password, the e-mail address and the `id` field
/// stay; with a password and no name, the name stays.
pub proof fn law_partial_update(user: UserView, value: Seq<char>)
    ensures
        apply_update(user, UpdateUserView { name: Some(value), password: None }) == (UserView {
            name: value,
            ..user
        }),
        apply_update(user, UpdateUserView { name: None, password: Some(value) }) == (UserView {
            password: value,
            ..user
        }),
        apply_update(user, UpdateUserView { name: None, password: None }) == user,
{
}

/// An update changes the record under its identifier and no other record.
pub proof fn law_update_keeps_others(
    records: Map<int, UserView>,
    id: int,
    update: UpdateUserView,
    other: int,
)
    requires
        other != id,
    ensures
        lookup(with_updated(records, id, update), other) == lookup(records, other),
        records.dom().contains(id) ==> lookup(with_updated(records, id, update), id) == Ok::<
            UserView,
            StoreError,
        >(apply_update(records[id], update)),
{
}

/// The identifiers that are given out when `users` are inserted one after
/// the other into a store with `records`, in the order of `users`.
pub open spec fn ids_in_turn(records: Map<int, UserView>, users: Seq<UserView>) -> Seq<int>
    decreases users.len(),
{
    if users.len() == 0 {
        Seq::empty()
    } else {
        ids_in_turn(records, users.drop_last()).push(
            lowest_vacant(records_in_turn(records, users.drop_last())),
        )
    }
}

/// The records after `users` were inserted one after the other into a store
/// with `records`.
pub open spec fn records_in_turn(records: Map<int, UserView>, users: Seq<UserView>) -> Map<
    int,
    UserView,
>
    decreases users.len(),
{
    if users.len() == 0 {
        records
    } else {
        with_inserted(records_in_turn(records, users.drop_last()), users.last())
    }
}

/// Insertions that take turns, in whatever order, each get an identifier of
/// their own that no earlier record had, and afterwards the store holds what
/// it held before and, under its identifier and carrying it, each record that
/// was inserted: none is lost and none is written over.
pub proof fn law_inserts_in_turn(records: Map<int, UserView>, users: Seq<UserView>)
    requires
        records.dom().finite(),
    ensures
        ids_in_turn(records, users).len() == users.len(),
        ids_in_turn(records, users).no_duplicates(),
        records_in_turn(records, users).dom().finite(),
        forall|i: int|
            0 <= i < users.len() ==> {
                &&& 0 <= #[trigger] ids_in_turn(records, users)[i]
                &&& !records.dom().contains(ids_in_turn(records, users)[i])
                &&& lookup(records_in_turn(records, users), ids_in_turn(records, users)[i]) == Ok::<
                    UserView,
                    StoreError,
                >(users[i].with_id(ids_in_turn(records, users)[i]))
            },
        forall|id: int| #[trigger]
            records.dom().contains(id) ==> lookup(records_in_turn(records, users), id) == lookup(
                records,
                id,
            ),
        records_in_turn(records, users).dom() == records.dom().union(
            ids_in_turn(records, users).to_set(),
        ),
        records_in_turn(records, users).dom().len() == records.dom().len() + users.len(),
    decreases users.len(),
{
    let ids = ids_in_turn(records, users);
    let after = records_in_turn(records, users);
    if users.len() == 0 {
        assert(after.dom() =~= records.dom().union(ids.to_set()));
    } else {
        let earlier = users.drop_last();
        let ids_before = ids_in_turn(records, earlier);
        let mid = records_in_turn(records, earlier);
        law_inserts_in_turn(records, earlier);
        lemma_lowest_vacant_exists(mid);
        let id = lowest_vacant(mid);
        assert(ids == ids_before.push(id));
        assert(after == mid.insert(id, users.last().with_id(id)));
        assert forall|i: int| 0 <= i < ids_before.len() implies ids_before[i] != id by {
            assert(mid.dom().contains(ids_before[i]));
        }
        assert forall|i: int, j: int| 0 <= i < ids.len() && 0 <= j < ids.len() && i != j implies ids[i]
            != ids[j] by {
            if i < ids_before.len() && j < ids_before.len() {
                assert(ids_before[i] != ids_before[j]);
            }
        }
        assert forall|i: int| 0 <= i < users.len() implies {
            &&& 0 <= #[trigger] ids[i]
            &&& !records.dom().contains(ids[i])
            &&& lookup(after, ids[i]) == Ok::<UserView, StoreError>(users[i].with_id(ids[i]))
        } by {
            if i < ids_before.len() {
                assert(ids[i] == ids_before[i]);
                assert(users[i] == earlier[i]);
                assert(lookup(mid, ids_before[i]) == Ok::<UserView, StoreError>(
                    earlier[i].with_id(ids_before[i]),
                ));
            } else {
                if records.dom().contains(id) {
                    assert(lookup(mid, id) == lookup(records, id));
                }
            }
        }
        assert forall|k: int| #[trigger] records.dom().contains(k) implies lookup(after, k)
            == lookup(records, k) by {
            assert(lookup(mid, k) == lookup(records, k));
        }
        assert(after.dom() =~= records.dom().union(ids.to_set())) by {
            assert(mid.dom() == records.dom().union(ids_before.to_set()));
            assert forall|k: int| ids.to_set().contains(k) <==> (ids_before.to_set().contains(k)
                || k == id) by {
                if ids.to_set().contains(k) {
                    let i = choose|i: int| 0 <= i < ids.len() && ids[i] == k;
                    if i < ids_before.len() {
                        assert(ids_before[i] == k);
                    }
                }
                if ids_before.to_set().contains(k) {
                    let i = choose|i: int| 0 <= i < ids_before.len() && ids_before[i] == k;
                    assert(ids[i] == k);
                }
                if k == id {
                    assert(ids[ids.len() - 1] == k);
                }
            }
        }
    }
}

} // verus!
