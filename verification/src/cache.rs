//! The token cache: the latest token under a fixed key, written by the
//! refresher and read by the request handlers.

use vstd::prelude::*;
use vstd::hash_map::StringHashMap;

verus! {

/// The key under which the refresher keeps the current token.
pub open spec fn token_key() -> Seq<char> {
    "token"@
}

/// A map from keys to token strings. It starts empty, a write overwrites, and
/// nothing is ever taken out.
pub struct TokenCache {
    entries: StringHashMap<String>,
}

impl View for TokenCache {
    type V = Map<Seq<char>, Seq<char>>;

    closed spec fn view(&self) -> Map<Seq<char>, Seq<char>> {
        self.entries@.map_values(|value: String| value@)
    }
}

impl TokenCache {
    /// A cache without entries.
    pub fn new() -> (cache: Self)
        ensures
            cache@ == (Map::<Seq<char>, Seq<char>>::empty()),
    {
        let entries = StringHashMap::<String>::new();
        proof {
            assert(entries@.map_values(|value: String| value@) =~= Map::<
                Seq<char>,
                Seq<char>,
            >::empty());
        }
        TokenCache { entries }
    }

    /// Puts `value` under `key`, in place of what was there.
    pub fn set(&mut self, key: String, value: String)
        ensures
            final(self)@ == old(self)@.insert(key@, value@),
    {
        let ghost before = self.entries@;
        self.entries.insert(key, value);
        proof {
            assert(before.insert(key@, value).map_values(|value: String| value@)
                =~= before.map_values(|value: String| value@).insert(key@, value@));
        }
    }

    /// A copy of the current token: what is under the refresher's key, or
    /// `None` as long as no refresh cycle has written one.
    pub fn current_token(&self) -> (value: Option<String>)
        ensures
            match value {
                Some(token) => self@.dom().contains(token_key()) && token@ == self@[token_key()],
                None => !self@.dom().contains(token_key()),
            },
    {
        self.get("token")
    }

    /// A copy of what is under `key`, or `None` where nothing was put there yet.
    pub fn get(&self, key: &str) -> (value: Option<String>)
        ensures
            match value {
                Some(token) => self@.dom().contains(key@) && token@ == self@[key@],
                None => !self@.dom().contains(key@),
            },
    {
        match self.entries.get(key) {
            Some(token) => Some(token.clone()),
            None => None,
        }
    }
}

} // verus!
