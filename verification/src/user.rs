//! The player value that a tracker stores.

use vstd::prelude::*;

verus! {

/// A participant of a game session.
///
/// Within one tracker a player is identified by `name` alone. `color` is
/// presentation data (a packed RGBA value) that the turn logic carries along
/// and never reads.
#[derive(Debug, PartialEq, Eq)]
pub struct User {
    pub name: String,
    pub color: u32,
}

/// What a [`User`] is in specifications: the characters of its name and its color.
pub ghost struct UserView {
    pub name: Seq<char>,
    pub color: u32,
}

impl View for User {
    type V = UserView;

    open spec fn view(&self) -> UserView {
        UserView { name: self.name@, color: self.color }
    }
}

impl Clone for User {
    fn clone(&self) -> (copy: Self)
        ensures
            copy == *self,
    {
        User { name: self.name.clone(), color: self.color }
    }
}

impl User {
    /// Whether this player goes by `name`.
    pub fn is_named(&self, name: &String) -> (r: bool)
        ensures
            r == (self@.name == name@),
    {
        self.name == *name
    }
}

} // verus!
