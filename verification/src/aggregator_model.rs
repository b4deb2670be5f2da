//! The profile registry as a mathematical state machine.

use vstd::prelude::*;
use crate::address::{Address, CodeHash};
use crate::error::FrameworkError;
use crate::profile::UserView;
use crate::text::prefix;

verus! {

/// How many entries of experience, and how many skills, a profile holds at
/// most.
pub const PROFILE_LIST_CAPACITY: usize = 10;

/// A reference to one instance of the poll engine: the account under which
/// the host runs it.
#[derive(Clone, Copy, Debug)]
pub struct PollEngineRef {
    pub account: Address,
}

/// What the host is asked for when the engine is instantiated: which code,
/// with what funding, under which salt.
#[derive(Clone, Copy, Debug)]
pub struct Instantiation {
    pub code_hash: CodeHash,
    pub endowment: u128,
    pub salt: [u8; 4],
}

/// The salt under which the engine is instantiated.
pub open spec fn engine_salt() -> Seq<u8> {
    seq![0xDEu8, 0xADu8, 0xBEu8, 0xEFu8]
}

/// The abstract state of the profile registry.
#[verifier::ext_equal]
pub struct FrameworkView {
    /// The profiles, in the order of their creation.
    pub users: Seq<UserView>,
    /// The user counter. No operation advances it.
    pub next_user_id: int,
    /// The engine that this registry was set up with.
    pub task_net: PollEngineRef,
}

/// The position of the last profile in `users` that goes by `username`.
pub open spec fn last_match(users: Seq<UserView>, username: Seq<char>) -> Option<int>
    decreases users.len(),
{
    if users.len() == 0 {
        None
    } else if users.last().username == username {
        Some(users.len() - 1)
    } else {
        last_match(users.drop_last(), username)
    }
}

impl FrameworkView {
    /// The registry before any call: no profile, counter at 0.
    pub open spec fn empty(task_net: PollEngineRef) -> FrameworkView {
        FrameworkView { users: Seq::empty(), next_user_id: 0, task_net }
    }

    /// Whether some profile goes by `username`.
    pub open spec fn has_username(self, username: Seq<char>) -> bool {
        exists|i: int| 0 <= i < self.users.len() && (#[trigger] self.users[i]).username == username
    }

    /// What holds of every state that the operations can reach: no two
    /// profiles share a username, and no profile holds more experience or
    /// skills than the capacity allows.
    pub open spec fn inv(self) -> bool {
        &&& forall|i: int, j: int|
            0 <= i < j < self.users.len() ==> (#[trigger] self.users[i]).username != (
            #[trigger] self.users[j]).username
        &&& forall|i: int|
            0 <= i < self.users.len() ==> (#[trigger] self.users[i]).experience.len()
                <= PROFILE_LIST_CAPACITY && self.users[i].skills.len() <= PROFILE_LIST_CAPACITY
    }

    /// The profile that `create_user` stores for the given arguments: the
    /// leading entries of each list, as many as the capacity allows.
    pub open spec fn new_profile(
        caller: Address,
        username: Seq<char>,
        experience: Seq<Seq<char>>,
        skills: Seq<Seq<char>>,
    ) -> UserView {
        UserView {
            address: caller,
            username,
            experience: prefix(experience, PROFILE_LIST_CAPACITY as nat),
            skills: prefix(skills, PROFILE_LIST_CAPACITY as nat),
        }
    }

    /// What `create_user` reports.
    pub open spec fn create_user_outcome(self, username: Seq<char>) -> Result<(), FrameworkError> {
        if self.has_username(username) {
            Err(FrameworkError::UsernameTaken)
        } else {
            Ok(())
        }
    }

    /// The state after `create_user`.
    pub open spec fn create_user(
        self,
        caller: Address,
        username: Seq<char>,
        experience: Seq<Seq<char>>,
        skills: Seq<Seq<char>>,
    ) -> FrameworkView {
        if self.create_user_outcome(username) is Ok {
            FrameworkView {
                users: self.users.push(
                    FrameworkView::new_profile(caller, username, experience, skills),
                ),
                ..self
            }
        } else {
            self
        }
    }

    /// The profile that goes by `username`: the last one, should there be
    /// several.
    pub open spec fn get_user(self, username: Seq<char>) -> Option<UserView> {
        match last_match(self.users, username) {
            Some(i) => Some(self.users[i]),
            None => None,
        }
    }

    /// Creating a profile keeps the invariant.
    pub proof fn lemma_create_user_keeps_inv(
        s: FrameworkView,
        caller: Address,
        username: Seq<char>,
        experience: Seq<Seq<char>>,
        skills: Seq<Seq<char>>,
    )
        requires
            s.inv(),
        ensures
            s.create_user(caller, username, experience, skills).inv(),
    {
        let after = s.create_user(caller, username, experience, skills);
        if s.create_user_outcome(username) is Ok {
            assert forall|i: int, j: int| 0 <= i < j < after.users.len() implies (
            #[trigger] after.users[i]).username != (#[trigger] after.users[j]).username by {
                assert(after.users[i] == s.users[i]);
                if j < s.users.len() {
                    assert(after.users[j] == s.users[j]);
                }
            }
            assert forall|i: int| 0 <= i < after.users.len() implies (
            #[trigger] after.users[i]).experience.len() <= PROFILE_LIST_CAPACITY
                && after.users[i].skills.len() <= PROFILE_LIST_CAPACITY by {
                if i < s.users.len() {
                    assert(after.users[i] == s.users[i]);
                }
            }
        }
    }
}

/// `last_match` finds a profile exactly when one goes by the username, and
/// what it finds is the last such profile.
pub proof fn lemma_last_match(users: Seq<UserView>, username: Seq<char>)
    ensures
        last_match(users, username) is Some <==> exists|i: int|
            0 <= i < users.len() && (#[trigger] users[i]).username == username,
        last_match(users, username) matches Some(i) ==> {
            &&& 0 <= i < users.len()
            &&& users[i].username == username
            &&& forall|j: int| i < j < users.len() ==> (#[trigger] users[j]).username != username
        },
    decreases users.len(),
{
    if users.len() > 0 {
        let front = users.drop_last();
        lemma_last_match(front, username);
        if users.last().username == username {
            assert(users[users.len() - 1].username == username);
        } else {
            if exists|i: int| 0 <= i < users.len() && (#[trigger] users[i]).username == username {
                let i = choose|i: int|
                    0 <= i < users.len() && (#[trigger] users[i]).username == username;
                assert(front[i].username == username);
            }
            if last_match(front, username) is Some {
                let i = last_match(front, username)->Some_0;
                assert(users[i] == front[i]);
                assert forall|j: int| i < j < users.len() implies (#[trigger] users[j]).username
                    != username by {
                    if j < front.len() {
                        assert(front[j].username != username);
                    }
                }
            }
        }
    }
}

} // verus!
