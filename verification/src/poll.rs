//! The records that the poll engine keeps, and what each of them stands for.

use vstd::prelude::*;
use crate::address::Address;
use crate::text::copy_texts;

verus! {

/// Whether a closed poll still takes answers.
#[derive(Clone, Copy, Debug, PartialEq, Eq, Structural)]
pub enum ResponsePolicy {
    /// Answers are recorded whether the poll is open or closed.
    AnyState,
    /// Answers to a closed poll are turned down.
    OpenOnly,
}

/// What a [`RegisteredUser`] stands for.
#[verifier::ext_equal]
pub struct RegisteredUserView {
    pub address: Address,
    pub username: Seq<char>,
    pub descriptors: Seq<Seq<char>>,
}

/// What a [`PollRecord`] stands for.
#[verifier::ext_equal]
pub struct PollView {
    pub id: int,
    pub author: Address,
    pub title: Seq<char>,
    pub description: Seq<char>,
    pub reward: nat,
    pub responses: Seq<Seq<char>>,
    pub participants: Seq<Address>,
    pub open: bool,
}

impl PollView {
    /// The poll as it is right after its creation: open and unanswered.
    pub open spec fn fresh(
        id: int,
        author: Address,
        title: Seq<char>,
        description: Seq<char>,
        reward: nat,
    ) -> PollView {
        PollView {
            id,
            author,
            title,
            description,
            reward,
            responses: Seq::empty(),
            participants: Seq::empty(),
            open: true,
        }
    }

    /// Whether `who` has answered this poll.
    pub open spec fn has_participant(self, who: Address) -> bool {
        self.participants.contains(who)
    }

    /// The poll with one more answer, given by `who`.
    pub open spec fn with_response(self, who: Address, response: Seq<char>) -> PollView {
        PollView {
            responses: self.responses.push(response),
            participants: self.participants.push(who),
            ..self
        }
    }

    /// The poll once closed.
    pub open spec fn closed(self) -> PollView {
        PollView { open: false, ..self }
    }

    /// Answers and participants stand side by side, and nobody answers twice.
    pub open spec fn inv(self) -> bool {
        &&& self.responses.len() == self.participants.len()
        &&& self.participants.no_duplicates()
    }
}

/// One entry of the engine's user registry.
#[derive(Debug)]
pub struct RegisteredUser {
    pub address: Address,
    pub username: String,
    pub descriptors: Vec<String>,
}

impl View for RegisteredUser {
    type V = RegisteredUserView;

    open spec fn view(&self) -> RegisteredUserView {
        RegisteredUserView {
            address: self.address,
            username: self.username@,
            descriptors: self.descriptors.deep_view(),
        }
    }
}

impl Clone for RegisteredUser {
    fn clone(&self) -> (r: RegisteredUser)
        ensures
            r@ == self@,
    {
        RegisteredUser {
            address: self.address,
            username: self.username.clone(),
            descriptors: copy_texts(&self.descriptors),
        }
    }
}

/// One poll: a question with a reward, its author, the answers given so far
/// and whether it is still open.
#[derive(Debug)]
pub struct PollRecord {
    pub id: i64,
    pub author: Address,
    pub title: String,
    pub description: String,
    pub reward: u128,
    pub responses: Vec<String>,
    pub participants: Vec<Address>,
    pub open: bool,
}

impl View for PollRecord {
    type V = PollView;

    open spec fn view(&self) -> PollView {
        PollView {
            id: self.id as int,
            author: self.author,
            title: self.title@,
            description: self.description@,
            reward: self.reward as nat,
            responses: self.responses.deep_view(),
            participants: self.participants@,
            open: self.open,
        }
    }
}

/// A copy of a list of addresses.
fn copy_addresses(source: &Vec<Address>) -> (r: Vec<Address>)
    ensures
        r@ == source@,
{
    let mut copy: Vec<Address> = Vec::with_capacity(source.len());
    let mut i: usize = 0;
    while i < source.len()
        invariant
            i <= source.len(),
            copy.len() == i,
            forall|k: int| 0 <= k < i ==> copy@[k] == source@[k],
        decreases source.len() - i,
    {
        copy.push(source[i]);
        i += 1;
    }
    proof {
        assert(copy@ =~= source@);
    }
    copy
}

impl Clone for PollRecord {
    fn clone(&self) -> (r: PollRecord)
        ensures
            r@ == self@,
    {
        PollRecord {
            id: self.id,
            author: self.author,
            title: self.title.clone(),
            description: self.description.clone(),
            reward: self.reward,
            responses: copy_texts(&self.responses),
            participants: copy_addresses(&self.participants),
            open: self.open,
        }
    }
}

} // verus!
