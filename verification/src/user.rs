//! The user record and the partial update that a client may send for it.

use vstd::prelude::*;
use vstd::std_specs::cmp::PartialEqSpecImpl;
use vstd::string::StrSliceExecFns;

verus! {

/// The most characters that the name of a new user may have.
pub const MAX_NAME_CHARS: usize = 64;

/// The most characters that the password of a new user may have.
pub const MAX_PASSWORD_CHARS: usize = 32;

/// A user record as clients send and receive it.
///
/// The `id` field is the store's to assign: whatever a client puts there, a
/// stored record carries the identifier under which the store keeps it.
#[derive(Debug)]
pub struct User {
    pub id: i64,
    pub name: String,
    pub password: String,
    pub email: String,
}

/// The mathematical value of a [`User`].
pub struct UserView {
    pub id: int,
    pub name: Seq<char>,
    pub password: Seq<char>,
    pub email: Seq<char>,
}

impl UserView {
    /// The same record with `id` in its `id` field.
    pub open spec fn with_id(self, id: int) -> UserView {
        UserView { id, ..self }
    }

    /// Whether name and password are no longer than a new user's may be.
    pub open spec fn within_limits(self) -> bool {
        self.name.len() <= MAX_NAME_CHARS && self.password.len() <= MAX_PASSWORD_CHARS
    }
}

impl View for User {
    type V = UserView;

    open spec fn view(&self) -> UserView {
        UserView {
            id: self.id as int,
            name: self.name@,
            password: self.password@,
            email: self.email@,
        }
    }
}

impl Clone for User {
    fn clone(&self) -> (copy: Self)
        ensures
            copy@ == self@,
    {
        User {
            id: self.id,
            name: self.name.clone(),
            password: self.password.clone(),
            email: self.email.clone(),
        }
    }
}

impl PartialEq for User {
    fn eq(&self, other: &Self) -> (same: bool) {
        self.id == other.id && self.name == other.name && self.password == other.password
            && self.email == other.email
    }
}

impl PartialEqSpecImpl for User {
    open spec fn obeys_eq_spec() -> bool {
        true
    }

    open spec fn eq_spec(&self, other: &Self) -> bool {
        self@ == other@
    }
}

impl Eq for User {

}

/// The fields of a user that a client may overwrite. A field that is `None`
/// leaves the stored one as it is.
#[derive(Debug)]
pub struct UpdateUser {
    pub name: Option<String>,
    pub password: Option<String>,
}

/// The mathematical value of an [`UpdateUser`].
pub struct UpdateUserView {
    pub name: Option<Seq<char>>,
    pub password: Option<Seq<char>>,
}

impl View for UpdateUser {
    type V = UpdateUserView;

    open spec fn view(&self) -> UpdateUserView {
        UpdateUserView {
            name: match self.name {
                Some(name) => Some(name@),
                None => None,
            },
            password: match self.password {
                Some(password) => Some(password@),
                None => None,
            },
        }
    }
}

impl Clone for UpdateUser {
    fn clone(&self) -> (copy: Self)
        ensures
            copy@ == self@,
    {
        UpdateUser {
            name: match &self.name {
                Some(name) => Some(name.clone()),
                None => None,
            },
            password: match &self.password {
                Some(password) => Some(password.clone()),
                None => None,
            },
        }
    }
}

impl PartialEq for UpdateUser {
    fn eq(&self, other: &Self) -> (same: bool) {
        let same_name = match (&self.name, &other.name) {
            (Some(mine), Some(theirs)) => *mine == *theirs,
            (None, None) => true,
            _ => false,
        };
        let same_password = match (&self.password, &other.password) {
            (Some(mine), Some(theirs)) => *mine == *theirs,
            (None, None) => true,
            _ => false,
        };
        same_name && same_password
    }
}

impl PartialEqSpecImpl for UpdateUser {
    open spec fn obeys_eq_spec() -> bool {
        true
    }

    open spec fn eq_spec(&self, other: &Self) -> bool {
        self@ == other@
    }
}

impl Eq for UpdateUser {

}

/// The record that results when `update` is laid over `user`: each field that
/// the update names takes the update's value, every other field stays.
pub open spec fn apply_update(user: UserView, update: UpdateUserView) -> UserView {
    UserView {
        id: user.id,
        name: match update.name {
            Some(name) => name,
            None => user.name,
        },
        password: match update.password {
            Some(password) => password,
            None => user.password,
        },
        email: user.email,
    }
}

impl User {
    /// Whether name and password are no longer than a new user's may be,
    /// counted in characters.
    pub fn is_within_limits(&self) -> (fits: bool)
        ensures
            fits == self@.within_limits(),
    {
        self.name.as_str().unicode_len() <= MAX_NAME_CHARS && self.password.as_str().unicode_len()
            <= MAX_PASSWORD_CHARS
    }

    /// Overwrites the fields that `update` names and leaves the others alone.
    pub fn apply(&mut self, update: UpdateUser)
        ensures
            final(self)@ == apply_update(old(self)@, update@),
    {
        if let Some(name) = update.name {
            self.name = name;
        }
        if let Some(password) = update.password {
            self.password = password;
        }
    }
}

} // verus!
