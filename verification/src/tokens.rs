//! The pairing token registry: a set of opaque strings that only grows.
//! A token is in the set from the moment it is generated or added until the
//! process ends.

use crate::clock::unix_millis;
use crate::string_set::StringSet;
use crate::text::{decimal, push_decimal};
use vstd::prelude::*;

verus! {

/// The token generated at `millis` milliseconds since the Unix epoch.
pub open spec fn token_for(millis: u128) -> Seq<char> {
    "richiedrop-"@ + decimal(millis as nat)
}

/// The set of accepted pairing tokens.
pub struct TokenRegistry {
    tokens: StringSet,
}

impl View for TokenRegistry {
    type V = Set<Seq<char>>;

    closed spec fn view(&self) -> Set<Seq<char>> {
        self.tokens@
    }
}

impl TokenRegistry {
    /// The empty registry.
    pub fn new() -> (registry: Self)
        ensures
            registry@ == Set::<Seq<char>>::empty(),
    {
        TokenRegistry { tokens: StringSet::new() }
    }

    /// Whether `token` is in the registry.
    pub fn contains(&self, token: &str) -> (found: bool)
        ensures
            found == self@.contains(token@),
    {
        self.tokens.contains(token)
    }

    /// Puts `token` into the registry. Every token that was in it stays.
    pub fn add(&mut self, token: String)
        ensures
            final(self)@ == old(self)@.insert(token@),
    {
        let _ = self.tokens.insert(token);
    }

    /// Derives the token for the time `millis`, puts it into the registry
    /// and returns it.
    pub fn generate_at(&mut self, millis: u128) -> (token: String)
        ensures
            token@ == token_for(millis),
            final(self)@ == old(self)@.insert(token_for(millis)),
    {
        let mut token = String::from_str("richiedrop-");
        push_decimal(&mut token, millis);
        self.add(token.clone());
        token
    }

    /// Derives a token from the current time, puts it into the registry and
    /// returns it.
    pub fn generate(&mut self) -> (token: String)
        ensures
            exists|millis: u128| token@ == token_for(millis),
            final(self)@ == old(self)@.insert(token@),
    {
        let millis: u128 = unix_millis();
        self.generate_at(millis)
    }
}

} // verus!
