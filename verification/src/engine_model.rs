//! The poll engine as a mathematical state machine.
//!
//! The state is a map of registered users and a sequence of polls. Each
//! operation is a pair of functions: one gives the outcome reported to the
//! caller, the other the state after the call. An operation that is turned
//! down leaves the state as it was.

use vstd::prelude::*;
use crate::address::Address;
use crate::error::FrameworkError;
use crate::poll::{PollView, RegisteredUserView, ResponsePolicy};

verus! {

/// The abstract state of a poll engine.
#[verifier::ext_equal]
pub struct PollEngineView {
    /// The user registry, keyed by address.
    pub users: Map<Address, RegisteredUserView>,
    /// Every poll created so far, in the order of creation.
    pub polls: Seq<PollView>,
    /// The identifier that the next poll will get.
    pub next_poll_id: int,
    /// Whether closed polls take answers.
    pub policy: ResponsePolicy,
}

impl PollEngineView {
    /// The engine before any call: nobody registered, no poll, counter at 0.
    pub open spec fn empty(policy: ResponsePolicy) -> PollEngineView {
        PollEngineView { users: Map::empty(), polls: Seq::empty(), next_poll_id: 0, policy }
    }

    /// Whether `who` holds a record in the user registry.
    pub open spec fn is_registered(self, who: Address) -> bool {
        self.users.contains_key(who)
    }

    /// Whether a poll was created under `poll_id`.
    pub open spec fn has_poll(self, poll_id: int) -> bool {
        0 <= poll_id < self.polls.len()
    }

    /// The poll created under `poll_id`, if there is one.
    pub open spec fn get_poll(self, poll_id: int) -> Option<PollView> {
        if self.has_poll(poll_id) {
            Some(self.polls[poll_id])
        } else {
            None
        }
    }

    /// What holds of every state that the operations can reach.
    ///
    /// The registry holds finitely many records, each under its own address.
    /// Identifiers were handed out as 0, 1, 2, ... without a gap, and the
    /// counter is the number of polls. In every poll the answers stand side by
    /// side with their participants, nobody answered twice, and the author
    /// and the participants are registered users.
    pub open spec fn inv(self) -> bool {
        &&& self.users.dom().finite()
        &&& forall|who: Address| #[trigger]
            self.users.contains_key(who) ==> self.users[who].address == who
        &&& self.next_poll_id == self.polls.len()
        &&& forall|i: int|
            0 <= i < self.polls.len() ==> {
                &&& (#[trigger] self.polls[i]).id == i
                &&& self.polls[i].inv()
                &&& self.users.contains_key(self.polls[i].author)
            }
        &&& forall|i: int, j: int|
            0 <= i < self.polls.len() && 0 <= j < self.polls[i].participants.len()
                ==> self.users.contains_key(#[trigger] self.polls[i].participants[j])
    }

    /// The state after `caller` registers as `username`: the caller's record
    /// is the new one, whether or not there was one before.
    pub open spec fn register_user(self, caller: Address, username: Seq<char>) -> PollEngineView {
        PollEngineView {
            users: self.users.insert(
                caller,
                RegisteredUserView { address: caller, username, descriptors: Seq::empty() },
            ),
            ..self
        }
    }

    /// What `create_poll` reports: the new poll's identifier, or why no poll
    /// was created.
    pub open spec fn create_poll_outcome(self, caller: Address) -> Result<int, FrameworkError> {
        if !self.is_registered(caller) {
            Err(FrameworkError::CallerNotRegistered)
        } else {
            Ok(self.next_poll_id)
        }
    }

    /// The state after `create_poll`.
    pub open spec fn create_poll(
        self,
        caller: Address,
        title: Seq<char>,
        description: Seq<char>,
        reward: nat,
    ) -> PollEngineView {
        if self.create_poll_outcome(caller) is Ok {
            PollEngineView {
                polls: self.polls.push(
                    PollView::fresh(self.next_poll_id, caller, title, description, reward),
                ),
                next_poll_id: self.next_poll_id + 1,
                ..self
            }
        } else {
            self
        }
    }

    /// What `respond_to_poll` reports.
    pub open spec fn respond_outcome(self, caller: Address, poll_id: int) -> Result<
        (),
        FrameworkError,
    > {
        if !self.is_registered(caller) {
            Err(FrameworkError::CallerNotRegistered)
        } else if !self.has_poll(poll_id) {
            Err(FrameworkError::PollNotFound)
        } else if self.policy == ResponsePolicy::OpenOnly && !self.polls[poll_id].open {
            Err(FrameworkError::PollClosed)
        } else if self.polls[poll_id].has_participant(caller) {
            Err(FrameworkError::UserAlreadyResponded)
        } else {
            Ok(())
        }
    }

    /// The state after `respond_to_poll`.
    pub open spec fn respond_to_poll(
        self,
        caller: Address,
        poll_id: int,
        response: Seq<char>,
    ) -> PollEngineView {
        if self.respond_outcome(caller, poll_id) is Ok {
            PollEngineView {
                polls: self.polls.update(
                    poll_id,
                    self.polls[poll_id].with_response(caller, response),
                ),
                ..self
            }
        } else {
            self
        }
    }

    /// What `close_poll` reports.
    pub open spec fn close_outcome(self, caller: Address, poll_id: int) -> Result<
        (),
        FrameworkError,
    > {
        if !self.is_registered(caller) {
            Err(FrameworkError::CallerNotRegistered)
        } else if !self.has_poll(poll_id) {
            Err(FrameworkError::PollNotFound)
        } else if self.polls[poll_id].author != caller {
            Err(FrameworkError::NotPollAuthor)
        } else {
            Ok(())
        }
    }

    /// The state after `close_poll`.
    pub open spec fn close_poll(self, caller: Address, poll_id: int) -> PollEngineView {
        if self.close_outcome(caller, poll_id) is Ok {
            PollEngineView {
                polls: self.polls.update(poll_id, self.polls[poll_id].closed()),
                ..self
            }
        } else {
            self
        }
    }

    /// Registering a user keeps the invariant.
    pub proof fn lemma_register_user_keeps_inv(s: PollEngineView, caller: Address, username: Seq<char>)
        requires
            s.inv(),
        ensures
            s.register_user(caller, username).inv(),
    {
    }

    /// Creating a poll keeps the invariant.
    pub proof fn lemma_create_poll_keeps_inv(
        s: PollEngineView,
        caller: Address,
        title: Seq<char>,
        description: Seq<char>,
        reward: nat,
    )
        requires
            s.inv(),
        ensures
            s.create_poll(caller, title, description, reward).inv(),
    {
    }

    /// Recording an answer keeps the invariant.
    pub proof fn lemma_respond_keeps_inv(
        s: PollEngineView,
        caller: Address,
        poll_id: int,
        response: Seq<char>,
    )
        requires
            s.inv(),
        ensures
            s.respond_to_poll(caller, poll_id, response).inv(),
    {
        let after = s.respond_to_poll(caller, poll_id, response);
        if s.respond_outcome(caller, poll_id) is Ok {
            let before = s.polls[poll_id];
            let poll = after.polls[poll_id];
            assert(poll == before.with_response(caller, response));
            assert(before.inv());
            assert(!before.participants.contains(caller));
            assert(poll.participants.no_duplicates()) by {
                assert forall|a: int, b: int|
                    0 <= a < poll.participants.len() && 0 <= b < poll.participants.len() && a
                        != b implies poll.participants[a] != poll.participants[b] by {
                    if a < before.participants.len() {
                        assert(before.participants[a] == poll.participants[a]);
                    }
                    if b < before.participants.len() {
                        assert(before.participants[b] == poll.participants[b]);
                    }
                }
            }
            assert forall|i: int| 0 <= i < after.polls.len() implies {
                &&& (#[trigger] after.polls[i]).id == i
                &&& after.polls[i].inv()
                &&& after.users.contains_key(after.polls[i].author)
            } by {
                if i != poll_id {
                    assert(after.polls[i] == s.polls[i]);
                }
            }
            assert forall|i: int, j: int|
                0 <= i < after.polls.len() && 0 <= j < after.polls[i].participants.len() implies after.users.contains_key(
            #[trigger] after.polls[i].participants[j]) by {
                if i != poll_id {
                    assert(after.polls[i] == s.polls[i]);
                    assert(s.users.contains_key(s.polls[i].participants[j]));
                } else if j < before.participants.len() {
                    assert(s.users.contains_key(s.polls[i].participants[j]));
                }
            }
        }
    }

    /// Closing a poll keeps the invariant.
    pub proof fn lemma_close_keeps_inv(s: PollEngineView, caller: Address, poll_id: int)
        requires
            s.inv(),
        ensures
            s.close_poll(caller, poll_id).inv(),
    {
        let after = s.close_poll(caller, poll_id);
        if s.close_outcome(caller, poll_id) is Ok {
            assert forall|i: int| 0 <= i < after.polls.len() implies {
                &&& (#[trigger] after.polls[i]).id == i
                &&& after.polls[i].inv()
                &&& after.users.contains_key(after.polls[i].author)
            } by {
                assert(s.polls[i].inv());
            }
            assert forall|i: int, j: int|
                0 <= i < after.polls.len() && 0 <= j < after.polls[i].participants.len() implies after.users.contains_key(
            #[trigger] after.polls[i].participants[j]) by {
                assert(s.users.contains_key(s.polls[i].participants[j]));
            }
        }
    }
}

} // verus!
