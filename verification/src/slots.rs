//! What this library takes on trust about `slab::Slab`.
//!
//! A slab is a vector of slots, each occupied or vacant, with a stack of the
//! vacant slots threaded through them. Verus cannot look inside one, so two
//! names stand for what it holds, and each function below makes one call and
//! states, over those names, what the slab's source shows of it. Nothing in
//! this file is proved.

use vstd::prelude::*;
use slab::Slab;
use crate::store::MAX_USERS;
use crate::user::User;

verus! {

/// `slab::Slab`, of which Verus sees nothing but the type.
#[verifier::external_type_specification]
#[verifier::external_body]
#[verifier::reject_recursive_types(T)]
pub struct ExSlab<T>(Slab<T>);

/// The record in each occupied slot, by the slot's key.
pub uninterp spec fn slab_records(s: Slab<User>) -> Map<int, User>;

/// The keys that the slab hands out next, in that order: its stack of vacant
/// slots from the top down, and last the number of slots it has, which is the
/// key of the slot it appends once the stack is used up.
pub uninterp spec fn slab_vacancies(s: Slab<User>) -> Seq<int>;

/// `Slab::new`: a slab without slots, so that the first key it hands out is 0.
#[verifier::external_body]
pub(crate) fn slab_new() -> (s: Slab<User>)
    ensures
        slab_records(s) == (Map::<int, User>::empty()),
        slab_vacancies(s) == seq![0int],
{
    Slab::new()
}

/// `Slab::len`: the number of occupied slots.
#[verifier::external_body]
pub(crate) fn slab_len(s: &Slab<User>) -> (n: usize)
    ensures
        n as nat == slab_records(*s).dom().len(),
{
    s.len()
}

/// `Slab::contains`: whether the slot at `key` is occupied.
#[verifier::external_body]
pub(crate) fn slab_contains(s: &Slab<User>, key: usize) -> (occupied: bool)
    ensures
        occupied == slab_records(*s).dom().contains(key as int),
{
    s.contains(key)
}

/// `Slab::get`: the record in the slot at `key`, or `None` where that slot is
/// vacant or beyond the last one.
#[verifier::external_body]
pub(crate) fn slab_get(s: &Slab<User>, key: usize) -> (found: Option<&User>)
    ensures
        match found {
            Some(user) => slab_records(*s).dom().contains(key as int) && *user == slab_records(
                *s,
            )[key as int],
            None => !slab_records(*s).dom().contains(key as int),
        },
{
    s.get(key)
}

/// `Slab::get_mut`: as `Slab::get`, but the record can be written through the
/// reference. Whatever the caller leaves in it is what the slot then holds;
/// no other slot changes, nor does the stack of vacant ones.
#[verifier::external_body]
pub(crate) fn slab_get_mut(s: &mut Slab<User>, key: usize) -> (found: Option<&mut User>)
    ensures
        match found {
            Some(user) => {
                &&& slab_records(*old(s)).dom().contains(key as int)
                &&& *user == slab_records(*old(s))[key as int]
                &&& slab_records(*final(s)) == slab_records(*old(s)).insert(
                    key as int,
                    *final(user),
                )
                &&& slab_vacancies(*final(s)) == slab_vacancies(*old(s))
            },
            None => !slab_records(*old(s)).dom().contains(key as int) && *final(s) == *old(s),
        },
{
    s.get_mut(key)
}

/// `Slab::vacant_key`: the key that the next insertion will be given.
#[verifier::external_body]
pub(crate) fn slab_vacant_key(s: &Slab<User>) -> (key: usize)
    ensures
        key as int == slab_vacancies(*s).first(),
{
    s.vacant_key()
}

/// `Slab::insert`: stores `user` under the key that is first in line. Where
/// that key came off the stack of vacant slots, the rest of the stack is next
/// in line; where it was the key of a new slot, the slot after it is.
///
/// `Slab::insert` panics where the vector of slots would have to grow beyond
/// `isize::MAX` bytes. A vector at most doubles when it grows and a slot for a
/// [`User`] takes fewer than 256 bytes, so that cannot happen while there are
/// fewer than `MAX_USERS` slots; the call is ruled out where it would append
/// a slot to `MAX_USERS` of them.
#[verifier::external_body]
pub(crate) fn slab_insert(s: &mut Slab<User>, user: User) -> (key: usize)
    requires
        slab_vacancies(*old(s)).len() <= 1 ==> slab_vacancies(*old(s)).first() < MAX_USERS,
    ensures
        key as int == slab_vacancies(*old(s)).first(),
        slab_records(*final(s)) == slab_records(*old(s)).insert(key as int, user),
        slab_vacancies(*old(s)).len() > 1 ==> slab_vacancies(*final(s)) == slab_vacancies(
            *old(s),
        ).skip(1),
        slab_vacancies(*old(s)).len() <= 1 ==> slab_vacancies(*final(s)) == seq![key as int + 1],
{
    s.insert(user)
}

/// `Slab::remove`: takes the record out of the slot at `key`, which must be
/// occupied, and puts that slot on top of the stack of vacant ones.
#[verifier::external_body]
pub(crate) fn slab_remove(s: &mut Slab<User>, key: usize) -> (user: User)
    requires
        slab_records(*old(s)).dom().contains(key as int),
    ensures
        user == slab_records(*old(s))[key as int],
        slab_records(*final(s)) == slab_records(*old(s)).remove(key as int),
        slab_vacancies(*final(s)) == seq![key as int] + slab_vacancies(*old(s)),
{
    s.remove(key)
}

} // verus!
