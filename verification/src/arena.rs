//! The store's records as they lie in a `slab::Slab`, and the steps that the
//! store takes on it.
//!
//! A slab hands out the slot that was vacated last. The store promises the
//! lowest vacant one, and keeps that promise here, on top of what the slab
//! does: every function states what it needs of the slab and what it leaves.

use vstd::prelude::*;
use slab::Slab;
use crate::slots::{
    slab_contains, slab_get_mut, slab_insert, slab_records, slab_remove, slab_vacancies,
    slab_vacant_key,
};
use crate::store::{
    is_lowest_vacant, presence, with_removed, with_updated, StoreError, MAX_USERS,
};
use crate::user::{UpdateUser, User, UserView};

verus! {

/// The values of the records that a slab holds.
pub closed spec fn views(records: Map<int, User>) -> Map<int, UserView> {
    records.map_values(|user: User| user@)
}

/// What holds of every slab that a store keeps, whatever was inserted and
/// removed: the keys in line are distinct, the last of them is the number of
/// slots, the others are exactly the vacant slots, and no slot lies beyond.
pub closed spec fn coherent(records: Map<int, User>, vacancies: Seq<int>) -> bool {
    &&& vacancies.len() >= 1
    &&& 0 <= vacancies.last() <= MAX_USERS
    &&& vacancies.no_duplicates()
    &&& forall|k: int| records.dom().contains(k) ==> 0 <= k < vacancies.last()
    &&& forall|i: int|
        0 <= i < vacancies.len() - 1 ==> 0 <= #[trigger] vacancies[i] < vacancies.last()
            && !records.dom().contains(vacancies[i])
    &&& forall|k: int|
        0 <= k < vacancies.last() && !records.dom().contains(k) ==> vacancies.contains(k)
}

proof fn lemma_coherent_finite(records: Map<int, User>, vacancies: Seq<int>)
    requires
        coherent(records, vacancies),
    ensures
        records.dom().finite(),
        records.dom().len() <= vacancies.last(),
        records.dom().len() == vacancies.last() ==> vacancies.len() == 1,
{
    let slots = vacancies.last();
    let all = vstd::set_lib::set_int_range(0, slots);
    vstd::set_lib::lemma_int_range(0, slots);
    assert(records.dom().subset_of(all));
    vstd::set_lib::lemma_len_subset(records.dom(), all);
    if vacancies.len() > 1 {
        let k = vacancies[0];
        assert(all.contains(k) && !records.dom().contains(k));
        let fewer = all.remove(k);
        assert(records.dom().subset_of(fewer));
        vstd::set_lib::lemma_len_subset(records.dom(), fewer);
    }
}

/// A coherent slab holds finitely many records, under keys from 0 up to, but
/// not including, `MAX_USERS`.
pub(crate) proof fn lemma_coherent_bounds(records: Map<int, User>, vacancies: Seq<int>)
    requires
        coherent(records, vacancies),
    ensures
        views(records).dom().finite(),
        views(records).dom().len() <= MAX_USERS,
        forall|id: int| views(records).dom().contains(id) ==> 0 <= id < MAX_USERS,
{
    lemma_views_dom(records);
    lemma_coherent_finite(records, vacancies);
}

/// A slab that was just made is coherent and holds nothing.
pub(crate) proof fn lemma_coherent_new(records: Map<int, User>, vacancies: Seq<int>)
    requires
        records == Map::<int, User>::empty(),
        vacancies == seq![0int],
    ensures
        coherent(records, vacancies),
        views(records) == Map::<int, UserView>::empty(),
{
    assert(views(records) =~= Map::<int, UserView>::empty());
}

proof fn lemma_coherent_after_insert(records: Map<int, User>, vacancies: Seq<int>, user: User)
    requires
        coherent(records, vacancies),
        vacancies.len() <= 1 ==> vacancies.first() < MAX_USERS,
    ensures
        coherent(
            records.insert(vacancies.first(), user),
            if vacancies.len() > 1 {
                vacancies.skip(1)
            } else {
                seq![vacancies.first() + 1]
            },
        ),
{
    let key = vacancies.first();
    let after = records.insert(key, user);
    if vacancies.len() > 1 {
        let rest = vacancies.skip(1);
        assert(rest.last() == vacancies.last());
        assert forall|i: int, j: int|
            0 <= i < rest.len() && 0 <= j < rest.len() && i != j implies rest[i] != rest[j] by {
            assert(rest[i] == vacancies[i + 1] && rest[j] == vacancies[j + 1]);
        }
        assert forall|i: int| 0 <= i < rest.len() - 1 implies 0 <= #[trigger] rest[i] < rest.last()
            && !after.dom().contains(rest[i]) by {
            assert(rest[i] == vacancies[i + 1]);
        }
        assert forall|k: int|
            0 <= k < rest.last() && !after.dom().contains(k) implies rest.contains(k) by {
            assert(vacancies.contains(k));
            let i = choose|i: int| 0 <= i < vacancies.len() && vacancies[i] == k;
            assert(i != 0);
            assert(rest[i - 1] == k);
        }
    } else {
        let next = seq![key + 1];
        assert(next.last() == key + 1);
        assert forall|k: int|
            0 <= k < next.last() && !after.dom().contains(k) implies next.contains(k) by {
            if k < key {
                assert(vacancies.contains(k));
            }
        }
    }
}

proof fn lemma_coherent_after_remove(records: Map<int, User>, vacancies: Seq<int>, key: int)
    requires
        coherent(records, vacancies),
        records.dom().contains(key),
    ensures
        coherent(records.remove(key), seq![key] + vacancies),
{
    let after = records.remove(key);
    let line = seq![key] + vacancies;
    assert(line.last() == vacancies.last());
    assert forall|i: int| 0 < i < line.len() implies line[i] == vacancies[i - 1] by {}
    assert forall|i: int, j: int|
        0 <= i < line.len() && 0 <= j < line.len() && i != j implies line[i] != line[j] by {
        if i > 0 && j > 0 {
            assert(line[i] == vacancies[i - 1] && line[j] == vacancies[j - 1]);
        } else if i > 0 {
            assert(line[i] == vacancies[i - 1]);
        } else {
            assert(line[j] == vacancies[j - 1]);
        }
    }
    assert forall|i: int| 0 <= i < line.len() - 1 implies 0 <= #[trigger] line[i] < line.last()
        && !after.dom().contains(line[i]) by {
        if i > 0 {
            assert(line[i] == vacancies[i - 1]);
        }
    }
    assert forall|k: int|
        0 <= k < line.last() && !after.dom().contains(k) implies line.contains(k) by {
        if k == key {
            assert(line[0] == k);
        } else {
            assert(vacancies.contains(k));
            let i = choose|i: int| 0 <= i < vacancies.len() && vacancies[i] == k;
            assert(line[i + 1] == k);
        }
    }
}

proof fn lemma_views_insert(records: Map<int, User>, key: int, user: User)
    ensures
        views(records.insert(key, user)) == views(records).insert(key, user@),
{
    assert(views(records.insert(key, user)) =~= views(records).insert(key, user@));
}

pub(crate) proof fn lemma_views_dom(records: Map<int, User>)
    ensures
        views(records).dom() == records.dom(),
        forall|key: int|
            records.dom().contains(key) ==> #[trigger] views(records)[key] == records[key]@,
{
    assert(views(records).dom() =~= records.dom());
}

proof fn lemma_views_remove(records: Map<int, User>, key: int)
    ensures
        views(records.remove(key)) == views(records).remove(key),
{
    assert(views(records.remove(key)) =~= views(records).remove(key));
}

/// A record that fills a slot for a moment and is never handed out: its `id`
/// field is 0 and its name, password and e-mail address are empty.
fn placeholder() -> (filler: User)
    ensures
        filler@ == (UserView {
            id: 0,
            name: Seq::empty(),
            password: Seq::empty(),
            email: Seq::empty(),
        }),
{
    User { id: 0, name: String::new(), password: String::new(), email: String::new() }
}

/// Walks up from index 0 to the first slot that is not occupied.
fn find_lowest_vacant(slab: &Slab<User>) -> (id: usize)
    requires
        coherent(slab_records(*slab), slab_vacancies(*slab)),
    ensures
        is_lowest_vacant(views(slab_records(*slab)), id as int),
        id <= slab_vacancies(*slab).last(),
{
    let ghost records = slab_records(*slab);
    let ghost slots = slab_vacancies(*slab).last();
    proof {
        lemma_views_dom(records);
    }
    let mut id: usize = 0;
    while slab_contains(slab, id)
        invariant
            records == slab_records(*slab),
            slots == slab_vacancies(*slab).last(),
            coherent(records, slab_vacancies(*slab)),
            0 <= id <= slots,
            forall|lower: int| 0 <= lower < id ==> records.dom().contains(lower),
        decreases slots - id,
    {
        id = id + 1;
    }
    id
}

/// Stores `user` in the lowest vacant slot, with the slot's index in its `id`
/// field.
///
/// The slab hands out the slot that was vacated last, which need not be the
/// lowest. So the slots that it offers before the lowest one are filled with
/// placeholders, the record goes into the lowest, and the placeholders are
/// taken out again.
pub(crate) fn insert_lowest(slab: &mut Slab<User>, user: User) -> (id: usize)
    requires
        coherent(slab_records(*old(slab)), slab_vacancies(*old(slab))),
        views(slab_records(*old(slab))).dom().len() < MAX_USERS,
    ensures
        coherent(slab_records(*final(slab)), slab_vacancies(*final(slab))),
        is_lowest_vacant(views(slab_records(*old(slab))), id as int),
        views(slab_records(*final(slab))) == views(slab_records(*old(slab))).insert(
            id as int,
            user@.with_id(id as int),
        ),
{
    let ghost before = slab_records(*slab);
    let ghost line = slab_vacancies(*slab);
    proof {
        lemma_views_dom(before);
    }
    let lowest = find_lowest_vacant(slab);
    let ghost at: int;
    proof {
        lemma_coherent_finite(before, line);
        if lowest < line.last() {
            assert(line.contains(lowest as int));
            at = choose|i: int| 0 <= i < line.len() && line[i] == lowest as int;
        } else {
            at = line.len() - 1;
            if line.len() > 1 {
                assert(0 <= line[0] < line.last() && !before.dom().contains(line[0]));
            }
            assert(before.dom() =~= vstd::set_lib::set_int_range(0, line.last()));
            vstd::set_lib::lemma_int_range(0, line.last());
        }
    }
    let stored = User {
        id: lowest as i64,
        name: user.name,
        password: user.password,
        email: user.email,
    };
    let mut parked: Vec<usize> = Vec::new();
    let mut key = slab_vacant_key(slab);
    while key != lowest
        invariant
            coherent(before, line),
            coherent(slab_records(*slab), slab_vacancies(*slab)),
            0 <= parked.len() <= at < line.len(),
            line[at] == lowest as int,
            slab_vacancies(*slab) == line.skip(parked.len() as int),
            key as int == line[parked.len() as int],
            forall|i: int| 0 <= i < parked.len() ==> parked[i] as int == line[i],
            forall|i: int| 0 <= i < parked.len() ==> slab_records(*slab).dom().contains(line[i]),
            forall|k: int| #[trigger]
                before.dom().contains(k) ==> slab_records(*slab).dom().contains(k)
                    && slab_records(*slab)[k] == before[k],
            forall|k: int|
                slab_records(*slab).dom().contains(k) && !before.dom().contains(k)
                    ==> exists|i: int| 0 <= i < parked.len() && line[i] == k,
        decreases at - parked.len(),
    {
        let ghost held = slab_records(*slab);
        let ghost n = parked.len() as int;
        let filler = placeholder();
        proof {
            lemma_coherent_after_insert(held, slab_vacancies(*slab), filler);
            assert(n < at);
            assert(0 <= line[n] < line.last() && !before.dom().contains(line[n]));
        }
        let taken = slab_insert(slab, filler);
        parked.push(taken);
        key = slab_vacant_key(slab);
        proof {
            assert(line.skip(n).skip(1) =~= line.skip(n + 1));
            assert forall|k: int|
                slab_records(*slab).dom().contains(k) && !before.dom().contains(k)
                    implies exists|i: int| 0 <= i < parked.len() && line[i] == k by {
                if k == line[n] {
                    assert(0 <= n < parked.len() && line[n] == k);
                } else {
                    assert(held.dom().contains(k));
                    let i = choose|i: int| 0 <= i < n && line[i] == k;
                    assert(0 <= i < parked.len() && line[i] == k);
                }
            }
        }
    }
    let ghost held = slab_records(*slab);
    proof {
        lemma_coherent_after_insert(held, slab_vacancies(*slab), stored);
        assert(parked.len() == at);
        assert(!before.dom().contains(lowest as int));
        if slab_vacancies(*slab).len() <= 1 {
            assert(at == line.len() - 1);
        }
    }
    let id = slab_insert(slab, stored);
    while parked.len() > 0
        invariant
            coherent(before, line),
            coherent(slab_records(*slab), slab_vacancies(*slab)),
            0 <= parked.len() <= at < line.len(),
            line[at] == id as int,
            forall|i: int| 0 <= i < parked.len() ==> parked[i] as int == line[i],
            forall|i: int| 0 <= i < parked.len() ==> slab_records(*slab).dom().contains(line[i]),
            slab_records(*slab).dom().contains(id as int),
            slab_records(*slab)[id as int] == stored,
            forall|k: int| #[trigger]
                before.dom().contains(k) ==> slab_records(*slab).dom().contains(k)
                    && slab_records(*slab)[k] == before[k],
            forall|k: int|
                slab_records(*slab).dom().contains(k) && !before.dom().contains(k) && k != id
                    ==> exists|i: int| 0 <= i < parked.len() && line[i] == k,
        decreases parked.len(),
    {
        let ghost held = slab_records(*slab);
        let ghost n = parked.len() as int;
        let taken = parked.pop().unwrap();
        proof {
            assert(taken as int == line[n - 1]);
            assert(held.dom().contains(line[n - 1]));
            assert(line[n - 1] != line[at]);
            assert(!before.dom().contains(line[n - 1]));
            lemma_coherent_after_remove(held, slab_vacancies(*slab), taken as int);
        }
        let _ = slab_remove(slab, taken);
        proof {
            assert forall|i: int|
                0 <= i < parked.len() implies slab_records(*slab).dom().contains(line[i]) by {
                assert(held.dom().contains(line[i]));
                assert(line[i] != line[n - 1]);
            }
            assert forall|k: int|
                slab_records(*slab).dom().contains(k) && !before.dom().contains(k) && k != id
                    implies exists|i: int| 0 <= i < parked.len() && line[i] == k by {
                assert(held.dom().contains(k));
                let i = choose|i: int| 0 <= i < n && line[i] == k;
                assert(i != n - 1);
            }
        }
    }
    proof {
        let after = slab_records(*slab);
        let wanted = before.insert(id as int, stored);
        assert forall|k: int| after.dom().contains(k) implies wanted.dom().contains(k) by {
            if !before.dom().contains(k) && k != id {
                let i = choose|i: int| 0 <= i < parked.len() && line[i] == k;
            }
        }
        assert forall|k: int| wanted.dom().contains(k) implies after.dom().contains(k)
            && after[k] == wanted[k] by {
            if k != id {
                assert(before.dom().contains(k));
            }
        }
        assert(after =~= wanted);
        lemma_views_insert(before, id as int, stored);
        assert(stored@ == user@.with_id(id as int));
    }
    id
}

/// Overwrites, in the slot at `id`, the fields that `update` names.
pub(crate) fn update_slot(slab: &mut Slab<User>, id: usize, update: UpdateUser) -> (done: Result<
    (),
    StoreError,
>)
    requires
        coherent(slab_records(*old(slab)), slab_vacancies(*old(slab))),
    ensures
        coherent(slab_records(*final(slab)), slab_vacancies(*final(slab))),
        done == presence(views(slab_records(*old(slab))), id as int),
        views(slab_records(*final(slab))) == with_updated(
            views(slab_records(*old(slab))),
            id as int,
            update@,
        ),
{
    let ghost before = slab_records(*slab);
    proof {
        lemma_views_dom(before);
    }
    match slab_get_mut(slab, id) {
        Some(user) => {
            user.apply(update);
            proof {
                let after = before.insert(id as int, *user);
                lemma_views_insert(before, id as int, *user);
                assert(after.dom() =~= before.dom());
            }
            Ok(())
        },
        None => Err(StoreError::NotFound),
    }
}

/// Vacates the slot at `id` where it is occupied.
pub(crate) fn remove_slot(slab: &mut Slab<User>, id: usize) -> (done: Result<(), StoreError>)
    requires
        coherent(slab_records(*old(slab)), slab_vacancies(*old(slab))),
    ensures
        coherent(slab_records(*final(slab)), slab_vacancies(*final(slab))),
        done == presence(views(slab_records(*old(slab))), id as int),
        views(slab_records(*final(slab))) == with_removed(
            views(slab_records(*old(slab))),
            id as int,
        ),
{
    proof {
        lemma_views_dom(slab_records(*slab));
    }
    if slab_contains(slab, id) {
        proof {
            lemma_coherent_after_remove(slab_records(*slab), slab_vacancies(*slab), id as int);
            lemma_views_remove(slab_records(*slab), id as int);
        }
        let _ = slab_remove(slab, id);
        Ok(())
    } else {
        proof {
            let held = views(slab_records(*slab));
            assert(held.remove(id as int) =~= held);
        }
        Err(StoreError::NotFound)
    }
}

} // verus!
