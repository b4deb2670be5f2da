//! What holds of the profile registry across calls.
//!
//! Each statement is about the state machine of [`FrameworkView`], which is
//! what the registry's operations implement.

use vstd::prelude::*;
use crate::address::Address;
use crate::aggregator_model::{
    last_match,
    lemma_last_match,
    FrameworkView,
    PollEngineRef,
    PROFILE_LIST_CAPACITY,
};
use crate::error::FrameworkError;

verus! {

/// A registry that has seen no call satisfies the invariant and knows no
/// username.
pub proof fn law_empty_registry_is_valid(task_net: PollEngineRef, username: Seq<char>)
    ensures
        FrameworkView::empty(task_net).inv(),
        !FrameworkView::empty(task_net).has_username(username),
        FrameworkView::empty(task_net).get_user(username) is None,
{
}

/// Looking a username up finds a profile exactly when one goes by it, and
/// what it finds goes by that username. Where the invariant holds it is the
/// only such profile.
pub proof fn law_lookup_finds_the_profile(s: FrameworkView, username: Seq<char>)
    ensures
        s.get_user(username) is Some <==> s.has_username(username),
        s.get_user(username) matches Some(user) ==> user.username == username,
        s.inv() ==> forall|i: int|
            0 <= i < s.users.len() && (#[trigger] s.users[i]).username == username
                ==> s.get_user(username) == Some(s.users[i]),
{
    lemma_last_match(s.users, username);
    if s.inv() {
        assert forall|i: int|
            0 <= i < s.users.len() && (#[trigger] s.users[i]).username
                == username implies s.get_user(username) == Some(s.users[i]) by {
            let k = last_match(s.users, username)->Some_0;
            if i < k {
                assert(s.users[i].username != s.users[k].username);
            }
        }
    }
}

/// A stored profile holds the leading entries of what was supplied, in
/// order: all of them where there are no more than the capacity, else as
/// many as the capacity.
pub proof fn law_profile_lists_are_cut_to_capacity(
    caller: Address,
    username: Seq<char>,
    experience: Seq<Seq<char>>,
    skills: Seq<Seq<char>>,
)
    ensures
        ({
            let profile = FrameworkView::new_profile(caller, username, experience, skills);
            &&& profile.address == caller
            &&& profile.username == username
            &&& profile.experience.len() == if experience.len() <= PROFILE_LIST_CAPACITY {
                experience.len()
            } else {
                PROFILE_LIST_CAPACITY as nat
            }
            &&& profile.skills.len() == if skills.len() <= PROFILE_LIST_CAPACITY {
                skills.len()
            } else {
                PROFILE_LIST_CAPACITY as nat
            }
            &&& forall|i: int|
                0 <= i < profile.experience.len() ==> profile.experience[i] == experience[i]
            &&& forall|i: int| 0 <= i < profile.skills.len() ==> profile.skills[i] == skills[i]
        }),
{
}

/// A profile created under a free username is found under it right away,
/// and every other username is looked up as before.
pub proof fn law_created_profile_is_found(
    s: FrameworkView,
    caller: Address,
    username: Seq<char>,
    experience: Seq<Seq<char>>,
    skills: Seq<Seq<char>>,
    other: Seq<char>,
)
    requires
        !s.has_username(username),
        other != username,
    ensures
        s.create_user_outcome(username) is Ok,
        s.create_user(caller, username, experience, skills).get_user(username) == Some(
            FrameworkView::new_profile(caller, username, experience, skills),
        ),
        s.create_user(caller, username, experience, skills).get_user(other) == s.get_user(other),
        s.create_user(caller, username, experience, skills).users.len() == s.users.len() + 1,
        s.create_user(caller, username, experience, skills).task_net == s.task_net,
        s.create_user(caller, username, experience, skills).next_user_id == s.next_user_id,
{
    let after = s.create_user(caller, username, experience, skills);
    assert(after.users.drop_last() =~= s.users);
    lemma_last_match(s.users, other);
    if last_match(s.users, other) is Some {
        let i = last_match(s.users, other)->Some_0;
        assert(after.users[i] == s.users[i]);
    }
}

/// The first profile under a username wins: a later attempt under the same
/// username, by the same or another address and with whatever lists, is
/// turned down and changes nothing, so the username is still looked up to
/// the profile that was there.
pub proof fn law_taken_username_is_turned_down(
    s: FrameworkView,
    caller: Address,
    username: Seq<char>,
    experience: Seq<Seq<char>>,
    skills: Seq<Seq<char>>,
)
    requires
        s.has_username(username),
    ensures
        s.create_user_outcome(username) == Err::<(), FrameworkError>(FrameworkError::UsernameTaken),
        s.create_user(caller, username, experience, skills) == s,
        s.create_user(caller, username, experience, skills).get_user(username) == s.get_user(
            username,
        ),
{
}

/// Of two attempts to create a profile under one free username, the first
/// is stored and the second is not, whoever makes them and whatever they
/// supply.
pub proof fn law_first_writer_wins(
    s: FrameworkView,
    first: Address,
    second: Address,
    username: Seq<char>,
    experience: Seq<Seq<char>>,
    skills: Seq<Seq<char>>,
    later_experience: Seq<Seq<char>>,
    later_skills: Seq<Seq<char>>,
)
    requires
        !s.has_username(username),
    ensures
        ({
            let once = s.create_user(first, username, experience, skills);
            let twice = once.create_user(second, username, later_experience, later_skills);
            &&& once.create_user_outcome(username) == Err::<(), FrameworkError>(
                FrameworkError::UsernameTaken,
            )
            &&& twice == once
            &&& twice.get_user(username) == Some(
                FrameworkView::new_profile(first, username, experience, skills),
            )
        }),
{
    let once = s.create_user(first, username, experience, skills);
    assert(once.users[s.users.len() as int].username == username);
    assert(once.has_username(username));
    assert(once.users.drop_last() =~= s.users);
}

} // verus!
