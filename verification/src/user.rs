//! The user directory: the slow lookup that the cache is there to memoize.

use vstd::prelude::*;

verus! {

/// A user record as the directory serves it.
#[derive(Debug)]
pub struct User {
    pub id: u32,
    pub name: String,
    pub email: String,
}

/// What a user record says: its identifier, and its name and address as text.
pub struct UserView {
    pub id: u32,
    pub name: Seq<char>,
    pub email: Seq<char>,
}

impl View for User {
    type V = UserView;

    open spec fn view(&self) -> UserView {
        UserView { id: self.id, name: self.name@, email: self.email@ }
    }
}

impl Clone for User {
    /// A clone says what the record it was made from says.
    fn clone(&self) -> (copy: Self)
        ensures
            copy@ == self@,
    {
        User { id: self.id, name: self.name.clone(), email: self.email.clone() }
    }
}

/// The record the directory serves for every identifier.
pub open spec fn directory_entry(id: u32) -> UserView {
    UserView { id, name: "Ada"@, email: "ada@example.com"@ }
}

/// Looks up the user with identifier `id`. The directory knows one person and
/// serves that record under whichever identifier is asked for.
pub fn fetch_user(id: u32) -> (user: User)
    ensures
        user@ == directory_entry(id),
{
    User { id, name: "Ada".to_owned(), email: "ada@example.com".to_owned() }
}

} // verus!
