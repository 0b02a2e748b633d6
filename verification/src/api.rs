//! The four request handlers: create, read, update and delete a user.
//!
//! A handler is given what the request carried, works on the store, and says
//! in its response what the caller is to be told. Taking the store's lock, and
//! turning a response into a status code, is the caller's part.

use vstd::prelude::*;
use crate::store::{
    lemma_lowest_vacant_bounded, lookup, lowest_vacant, presence, with_inserted, with_removed,
    with_updated, StoreError, UserStore, MAX_USERS,
};
use crate::user::{UpdateUser, User, UserView};

verus! {

/// The secret that a caller must present to create a user.
pub open spec fn expected_secret() -> Seq<char> {
    "token123"@
}

/// The token that came with a request.
#[derive(Debug, Clone)]
pub struct Token(pub String);

impl Token {
    /// Whether the token is, letter for letter, the expected secret.
    pub fn is_authorized(&self) -> (authorized: bool)
        ensures
            authorized == (self.0@ == expected_secret()),
    {
        let secret = "token123".to_owned();
        self.0 == secret
    }
}

/// What a create request is answered with.
#[derive(Debug, Clone, Copy, PartialEq, Eq, Structural)]
pub enum CreateUserResponse {
    /// The user was stored under this identifier.
    Created(i64),
    /// The token was not the expected secret; nothing was stored.
    Unauthorized,
}

/// What a read request is answered with.
#[derive(Debug)]
pub enum FindUserResponse {
    /// The record under the identifier.
    Found(User),
    /// No record lives under the identifier.
    NotFound,
}

/// What a delete request is answered with.
#[derive(Debug, Clone, Copy, PartialEq, Eq, Structural)]
pub enum DeleteUserResponse {
    /// The record was removed.
    Deleted,
    /// No record lives under the identifier.
    NotFound,
}

/// What an update request is answered with.
#[derive(Debug, Clone, Copy, PartialEq, Eq, Structural)]
pub enum UpdateUserResponse {
    /// The record was updated.
    Updated,
    /// No record lives under the identifier.
    NotFound,
}

/// The slot that a request's identifier names, or `None` where it names none.
fn slot_of(user_id: i64) -> (slot: Option<usize>)
    ensures
        match slot {
            Some(index) => index as int == user_id as int,
            None => user_id < 0 || user_id > usize::MAX,
        },
{
    if user_id < 0 {
        None
    } else if user_id as u64 > usize::MAX as u64 {
        None
    } else {
        Some(user_id as usize)
    }
}

/// The handlers and the store they work on.
pub struct Api {
    users: UserStore,
}

impl View for Api {
    type V = Map<int, UserView>;

    closed spec fn view(&self) -> Map<int, UserView> {
        self.users@
    }
}

impl Default for Api {
    /// Handlers over an empty store, as [`Api::new`] gives them.
    fn default() -> (api: Self)
        ensures
            api.wf(),
            api@ == (Map::<int, UserView>::empty()),
    {
        Api::new()
    }
}

impl Api {
    /// Whether the store is in a state that the handlers can have left it in.
    pub closed spec fn wf(&self) -> bool {
        self.users.wf()
    }

    /// The store holds finitely many users, under identifiers from 0 up to,
    /// but not including, `MAX_USERS`.
    pub proof fn lemma_ids_bounded(&self)
        requires
            self.wf(),
        ensures
            self@.dom().finite(),
            self@.dom().len() <= MAX_USERS,
            forall|id: int| self@.dom().contains(id) ==> 0 <= id < MAX_USERS,
    {
        self.users.lemma_ids_bounded();
    }

    /// Handlers over an empty store.
    pub fn new() -> (api: Self)
        ensures
            api.wf(),
            api@ == (Map::<int, UserView>::empty()),
    {
        Api { users: UserStore::new() }
    }

    /// The number of users that the store holds.
    pub fn user_count(&self) -> (count: usize)
        ensures
            count == self@.dom().len(),
    {
        self.users.len()
    }

    /// Creates a user. With the expected secret as `token`, `user` is stored
    /// under the lowest free identifier, which is returned and which the
    /// stored record carries in its `id` field, whatever the payload had
    /// there. With any other token nothing is stored.
    pub fn create_user(&mut self, user: User, token: &Token) -> (response: CreateUserResponse)
        requires
            old(self).wf(),
            token.0@ == expected_secret() ==> old(self)@.dom().len() < MAX_USERS,
        ensures
            final(self).wf(),
            token.0@ == expected_secret() ==> response == CreateUserResponse::Created(
                lowest_vacant(old(self)@) as i64,
            ) && final(self)@ == with_inserted(old(self)@, user@),
            token.0@ != expected_secret() ==> response == CreateUserResponse::Unauthorized
                && final(self)@ == old(self)@,
    {
        if !token.is_authorized() {
            return CreateUserResponse::Unauthorized;
        }
        proof {
            old(self).users.lemma_ids_bounded();
        }
        let id = self.users.insert(user);
        proof {
            lemma_lowest_vacant_bounded(old(self)@, id as int);
        }
        CreateUserResponse::Created(id as i64)
    }

    /// Finds the user under `user_id`.
    pub fn find_user(&self, user_id: i64) -> (response: FindUserResponse)
        requires
            self.wf(),
        ensures
            match response {
                FindUserResponse::Found(user) => lookup(self@, user_id as int) == Ok::<
                    UserView,
                    StoreError,
                >(user@),
                FindUserResponse::NotFound => lookup(self@, user_id as int) == Err::<
                    UserView,
                    StoreError,
                >(StoreError::NotFound),
            },
    {
        proof {
            self.users.lemma_ids_bounded();
        }
        match slot_of(user_id) {
            Some(slot) => match self.users.get(slot) {
                Ok(user) => FindUserResponse::Found(user),
                Err(_) => FindUserResponse::NotFound,
            },
            None => FindUserResponse::NotFound,
        }
    }

    /// Deletes the user under `user_id`, whose identifier is then free again.
    pub fn delete_user(&mut self, user_id: i64) -> (response: DeleteUserResponse)
        requires
            old(self).wf(),
        ensures
            final(self).wf(),
            response == match presence(old(self)@, user_id as int) {
                Ok(_) => DeleteUserResponse::Deleted,
                Err(_) => DeleteUserResponse::NotFound,
            },
            final(self)@ == with_removed(old(self)@, user_id as int),
    {
        proof {
            self.users.lemma_ids_bounded();
        }
        match slot_of(user_id) {
            Some(slot) => match self.users.remove(slot) {
                Ok(_) => DeleteUserResponse::Deleted,
                Err(_) => DeleteUserResponse::NotFound,
            },
            None => {
                proof {
                    assert(self@.remove(user_id as int) =~= self@);
                }
                DeleteUserResponse::NotFound
            },
        }
    }

    /// Updates the user under `user_id`: the fields that `update` names are
    /// overwritten, the others stay as they are.
    pub fn put_user(&mut self, user_id: i64, update: UpdateUser) -> (response: UpdateUserResponse)
        requires
            old(self).wf(),
        ensures
            final(self).wf(),
            response == match presence(old(self)@, user_id as int) {
                Ok(_) => UpdateUserResponse::Updated,
                Err(_) => UpdateUserResponse::NotFound,
            },
            final(self)@ == with_updated(old(self)@, user_id as int, update@),
    {
        proof {
            self.users.lemma_ids_bounded();
        }
        match slot_of(user_id) {
            Some(slot) => match self.users.update(slot, update) {
                Ok(_) => UpdateUserResponse::Updated,
                Err(_) => UpdateUserResponse::NotFound,
            },
            None => UpdateUserResponse::NotFound,
        }
    }
}

} // verus!
