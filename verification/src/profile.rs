//! User profiles: who created them, under which username, with what
//! experience and skills.

use vstd::prelude::*;
use crate::address::Address;
use crate::text::copy_texts;

verus! {

/// What a [`User`] stands for.
#[verifier::ext_equal]
pub struct UserView {
    pub address: Address,
    pub username: Seq<char>,
    pub experience: Seq<Seq<char>>,
    pub skills: Seq<Seq<char>>,
}

/// A user profile.
#[derive(Debug)]
pub struct User {
    pub address: Address,
    pub username: String,
    pub experience: Vec<String>,
    pub skills: Vec<String>,
}

impl View for User {
    type V = UserView;

    open spec fn view(&self) -> UserView {
        UserView {
            address: self.address,
            username: self.username@,
            experience: self.experience.deep_view(),
            skills: self.skills.deep_view(),
        }
    }
}

/// What a list of profiles stands for.
pub open spec fn profile_views(users: Seq<User>) -> Seq<UserView> {
    users.map_values(|u: User| u@)
}

impl User {
    /// The profile made of the given parts, each taken as it is.
    pub fn new(address: Address, username: String, experience: Vec<String>, skills: Vec<String>) -> (r:
        User)
        ensures
            r@ == (UserView {
                address,
                username: username@,
                experience: experience.deep_view(),
                skills: skills.deep_view(),
            }),
    {
        User { address, username, experience, skills }
    }
}

impl Clone for User {
    fn clone(&self) -> (r: User)
        ensures
            r@ == self@,
    {
        User {
            address: self.address,
            username: self.username.clone(),
            experience: copy_texts(&self.experience),
            skills: copy_texts(&self.skills),
        }
    }
}

} // verus!
