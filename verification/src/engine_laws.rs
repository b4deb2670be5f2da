//! What holds of the poll engine across calls.
//!
//! Each statement is about the state machine of [`PollEngineView`], which is
//! what the engine's operations implement.

use vstd::prelude::*;
use crate::address::Address;
use crate::engine_model::PollEngineView;
use crate::error::FrameworkError;
use crate::poll::{PollView, ResponsePolicy};

verus! {

/// An engine that has seen no call satisfies the invariant.
pub proof fn law_empty_engine_is_valid(policy: ResponsePolicy)
    ensures
        PollEngineView::empty(policy).inv(),
{
}

/// Registering the same address twice, under two usernames, leaves the
/// registry as if only the second registration had happened: the address
/// holds one record, it carries the second username, and no other record
/// has changed.
pub proof fn law_reregistration_overwrites(
    s: PollEngineView,
    who: Address,
    first: Seq<char>,
    second: Seq<char>,
)
    requires
        s.inv(),
    ensures
        s.register_user(who, first).register_user(who, second) == s.register_user(who, second),
        s.register_user(who, first).register_user(who, second).users[who].username == second,
        s.register_user(who, first).register_user(who, second).users.dom() == s.users.dom().insert(
            who,
        ),
        s.register_user(who, first).register_user(who, second).users.dom().len() == s.register_user(
            who,
            first,
        ).users.dom().len(),
        forall|other: Address|
            other != who ==> s.register_user(who, first).register_user(who, second).users.contains_key(
                other,
            ) == s.users.contains_key(other) && s.register_user(who, first).register_user(
                who,
                second,
            ).users[other] == s.users[other],
{
    let once = s.register_user(who, first);
    let twice = once.register_user(who, second);
    assert(twice.users =~= s.register_user(who, second).users);
    assert(twice =~= s.register_user(who, second));
    assert(twice.users.dom() =~= s.users.dom().insert(who));
    assert(once.users.dom() =~= s.users.dom().insert(who));
}

/// A caller who is not registered creates no poll: the call is turned down
/// and the polls and the identifier counter stay as they were.
pub proof fn law_unregistered_caller_creates_nothing(
    s: PollEngineView,
    caller: Address,
    title: Seq<char>,
    description: Seq<char>,
    reward: nat,
)
    requires
        !s.is_registered(caller),
    ensures
        s.create_poll_outcome(caller) == Err::<int, FrameworkError>(
            FrameworkError::CallerNotRegistered,
        ),
        s.create_poll(caller, title, description, reward) == s,
        s.create_poll(caller, title, description, reward).polls == s.polls,
        s.create_poll(caller, title, description, reward).next_poll_id == s.next_poll_id,
{
}

/// A registered caller's poll gets the number of polls created before it as
/// its identifier, and can be looked up under it right away: open,
/// unanswered, with the caller as author.
pub proof fn law_created_poll_is_found(
    s: PollEngineView,
    caller: Address,
    title: Seq<char>,
    description: Seq<char>,
    reward: nat,
)
    requires
        s.inv(),
        s.is_registered(caller),
    ensures
        s.create_poll_outcome(caller) == Ok::<int, FrameworkError>(s.polls.len() as int),
        s.create_poll(caller, title, description, reward).get_poll(s.polls.len() as int) == Some(
            PollView::fresh(s.polls.len() as int, caller, title, description, reward),
        ),
        s.create_poll(caller, title, description, reward).next_poll_id == s.next_poll_id + 1,
        forall|id: int|
            s.has_poll(id) ==> s.create_poll(caller, title, description, reward).get_poll(id)
                == s.get_poll(id),
{
}

/// A second answer from the same address to the same poll changes nothing,
/// whatever the two answers are. Where the first answer was recorded, the
/// second is turned down as a repetition, and the poll holds the first
/// answer once.
pub proof fn law_second_response_is_ignored(
    s: PollEngineView,
    caller: Address,
    poll_id: int,
    first: Seq<char>,
    second: Seq<char>,
)
    requires
        s.inv(),
    ensures
        s.respond_to_poll(caller, poll_id, first).respond_to_poll(caller, poll_id, second)
            == s.respond_to_poll(caller, poll_id, first),
        s.respond_outcome(caller, poll_id) is Ok ==> {
            let once = s.respond_to_poll(caller, poll_id, first);
            &&& once.respond_outcome(caller, poll_id) == Err::<(), FrameworkError>(
                FrameworkError::UserAlreadyResponded,
            )
            &&& once.polls[poll_id].responses == s.polls[poll_id].responses.push(first)
            &&& once.polls[poll_id].participants == s.polls[poll_id].participants.push(caller)
            &&& once.polls[poll_id].participants.filter(|who: Address| who == caller).len() == 1
        },
{
    let once = s.respond_to_poll(caller, poll_id, first);
    if s.respond_outcome(caller, poll_id) is Ok {
        let before = s.polls[poll_id].participants;
        let after = once.polls[poll_id].participants;
        assert(after == before.push(caller));
        assert(after[before.len() as int] == caller);
        assert(after.contains(caller));
        lemma_filter_absent(before, caller);
        let pred = |who: Address| who == caller;
        assert(after.drop_last() =~= before);
        assert(after.filter(pred) =~= before.filter(pred).push(caller)) by {
            reveal(Seq::filter);
        }
    }
}

/// Filtering a sequence for an address that does not occur in it gives
/// nothing.
proof fn lemma_filter_absent(s: Seq<Address>, who: Address)
    requires
        !s.contains(who),
    ensures
        s.filter(|x: Address| x == who).len() == 0,
    decreases s.len(),
{
    reveal(Seq::filter);
    if s.len() > 0 {
        assert(s[s.len() - 1] != who);
        assert forall|k: int| 0 <= k < s.drop_last().len() implies s.drop_last()[k] != who by {
            assert(s[k] != who);
        }
        lemma_filter_absent(s.drop_last(), who);
    }
}

/// Closing a poll on behalf of anyone but its author changes nothing: the
/// call is turned down and the poll stays as open as it was.
pub proof fn law_only_the_author_closes(s: PollEngineView, caller: Address, poll_id: int)
    requires
        s.inv(),
        s.has_poll(poll_id),
        s.polls[poll_id].author != caller,
    ensures
        s.close_outcome(caller, poll_id) is Err,
        s.is_registered(caller) ==> s.close_outcome(caller, poll_id) == Err::<(), FrameworkError>(
            FrameworkError::NotPollAuthor,
        ),
        s.close_poll(caller, poll_id) == s,
        s.close_poll(caller, poll_id).polls[poll_id].open == s.polls[poll_id].open,
{
}

/// The author closes the poll, and closing it again changes nothing more.
/// Nothing but the poll's `open` flag differs afterwards.
pub proof fn law_author_closes_once_and_for_all(s: PollEngineView, author: Address, poll_id: int)
    requires
        s.inv(),
        s.has_poll(poll_id),
        s.polls[poll_id].author == author,
    ensures
        s.close_outcome(author, poll_id) is Ok,
        s.close_poll(author, poll_id).polls[poll_id] == s.polls[poll_id].closed(),
        !s.close_poll(author, poll_id).polls[poll_id].open,
        s.close_poll(author, poll_id).close_outcome(author, poll_id) is Ok,
        s.close_poll(author, poll_id).close_poll(author, poll_id) == s.close_poll(author, poll_id),
        forall|id: int|
            s.has_poll(id) && id != poll_id ==> s.close_poll(author, poll_id).polls[id]
                == s.polls[id],
{
    let once = s.close_poll(author, poll_id);
    let twice = once.close_poll(author, poll_id);
    assert(twice.polls =~= once.polls);
    assert(twice =~= once);
}

/// No operation opens a poll: a poll that is closed stays closed whatever
/// is called next.
pub proof fn law_closed_is_terminal(s: PollEngineView, call: Call, poll_id: int)
    requires
        s.inv(),
        s.has_poll(poll_id),
        !s.polls[poll_id].open,
    ensures
        step(s, call).has_poll(poll_id),
        !step(s, call).polls[poll_id].open,
{
}

/// Whatever is called, a poll keeps its identifier, author, title,
/// description and reward, and its answers and participants only grow at
/// the end, by one at most.
pub proof fn law_polls_are_append_only(s: PollEngineView, call: Call, poll_id: int)
    requires
        s.inv(),
        s.has_poll(poll_id),
    ensures
        step(s, call).has_poll(poll_id),
        ({
            let before = s.polls[poll_id];
            let after = step(s, call).polls[poll_id];
            &&& after.id == before.id
            &&& after.author == before.author
            &&& after.title == before.title
            &&& after.description == before.description
            &&& after.reward == before.reward
            &&& before.responses.len() <= after.responses.len() <= before.responses.len() + 1
            &&& after.responses.take(before.responses.len() as int) == before.responses
            &&& after.participants.take(before.participants.len() as int) == before.participants
            &&& after.responses.len() == after.participants.len()
        }),
{
    let before = s.polls[poll_id];
    let after = step(s, call).polls[poll_id];
    assert(after.responses.take(before.responses.len() as int) =~= before.responses);
    assert(after.participants.take(before.participants.len() as int) =~= before.participants);
}

/// Whatever is called, nobody leaves the user registry, and nobody but
/// the caller of `register_user` gets a new record.
pub proof fn law_users_are_never_removed(s: PollEngineView, call: Call, who: Address)
    requires
        s.is_registered(who),
    ensures
        step(s, call).is_registered(who),
        !(call matches Call::RegisterUser { caller, .. } && caller == who) ==> step(
            s,
            call,
        ).users[who] == s.users[who],
{
}

/// No call is turned down for a reward that is too low, whatever the
/// reward: the outcome of creating a poll does not depend on it.
pub proof fn law_no_reward_is_too_low(s: PollEngineView, caller: Address, poll_id: int)
    ensures
        s.create_poll_outcome(caller) != Err::<int, FrameworkError>(
            FrameworkError::TaskRewardTooLow,
        ),
        s.respond_outcome(caller, poll_id) != Err::<(), FrameworkError>(
            FrameworkError::TaskRewardTooLow,
        ),
        s.close_outcome(caller, poll_id) != Err::<(), FrameworkError>(
            FrameworkError::TaskRewardTooLow,
        ),
{
}

/// One call to the engine.
pub enum Call {
    RegisterUser { caller: Address, username: Seq<char> },
    CreatePoll { caller: Address, title: Seq<char>, description: Seq<char>, reward: nat },
    RespondToPoll { caller: Address, poll_id: int, response: Seq<char> },
    ClosePoll { caller: Address, poll_id: int },
}

/// The state after one call.
pub open spec fn step(s: PollEngineView, call: Call) -> PollEngineView {
    match call {
        Call::RegisterUser { caller, username } => s.register_user(caller, username),
        Call::CreatePoll { caller, title, description, reward } => s.create_poll(
            caller,
            title,
            description,
            reward,
        ),
        Call::RespondToPoll { caller, poll_id, response } => s.respond_to_poll(
            caller,
            poll_id,
            response,
        ),
        Call::ClosePoll { caller, poll_id } => s.close_poll(caller, poll_id),
    }
}

/// Whether `call`, made in state `s`, creates a poll.
pub open spec fn creates_poll(s: PollEngineView, call: Call) -> bool {
    call matches Call::CreatePoll { caller, .. } && s.create_poll_outcome(caller) is Ok
}

/// The state after a sequence of calls, made one after the other.
pub open spec fn run(s: PollEngineView, calls: Seq<Call>) -> PollEngineView
    decreases calls.len(),
{
    if calls.len() == 0 {
        s
    } else {
        step(run(s, calls.drop_last()), calls.last())
    }
}

/// How many of the calls, made one after the other from state `s`, create
/// a poll.
pub open spec fn polls_created(s: PollEngineView, calls: Seq<Call>) -> nat
    decreases calls.len(),
{
    if calls.len() == 0 {
        0
    } else {
        let earlier = polls_created(s, calls.drop_last());
        if creates_poll(run(s, calls.drop_last()), calls.last()) {
            earlier + 1
        } else {
            earlier
        }
    }
}

/// Every call keeps the invariant.
pub proof fn law_every_call_keeps_the_invariant(s: PollEngineView, call: Call)
    requires
        s.inv(),
    ensures
        step(s, call).inv(),
{
    match call {
        Call::RegisterUser { caller, username } => {
            PollEngineView::lemma_register_user_keeps_inv(s, caller, username);
        },
        Call::CreatePoll { caller, title, description, reward } => {
            PollEngineView::lemma_create_poll_keeps_inv(s, caller, title, description, reward);
        },
        Call::RespondToPoll { caller, poll_id, response } => {
            PollEngineView::lemma_respond_keeps_inv(s, caller, poll_id, response);
        },
        Call::ClosePoll { caller, poll_id } => {
            PollEngineView::lemma_close_keeps_inv(s, caller, poll_id);
        },
    }
}

/// Identifiers are handed out as 0, 1, 2, ... without a gap.
///
/// After any sequence of calls to a new engine, of which `n` created a
/// poll, there are exactly `n` polls, the counter stands at `n`, the poll at
/// position `i` has identifier `i`, and the identifiers under which a poll
/// is found are exactly those from 0 to `n - 1`.
pub proof fn law_identifiers_are_dense(policy: ResponsePolicy, calls: Seq<Call>)
    ensures
        run(PollEngineView::empty(policy), calls).inv(),
        run(PollEngineView::empty(policy), calls).polls.len() == polls_created(
            PollEngineView::empty(policy),
            calls,
        ),
        run(PollEngineView::empty(policy), calls).next_poll_id == polls_created(
            PollEngineView::empty(policy),
            calls,
        ),
        forall|i: int|
            0 <= i < polls_created(PollEngineView::empty(policy), calls) ==> (#[trigger] run(
                PollEngineView::empty(policy),
                calls,
            ).polls[i]).id == i,
        forall|id: int|
            run(PollEngineView::empty(policy), calls).get_poll(id) is Some <==> 0 <= id
                < polls_created(PollEngineView::empty(policy), calls),
    decreases calls.len(),
{
    let start = PollEngineView::empty(policy);
    if calls.len() > 0 {
        law_identifiers_are_dense(policy, calls.drop_last());
        law_every_call_keeps_the_invariant(run(start, calls.drop_last()), calls.last());
    }
}

/// A call that creates a poll reports, as the new identifier, the number of
/// polls that the calls before it created.
pub proof fn law_nth_poll_gets_identifier_n(
    policy: ResponsePolicy,
    earlier: Seq<Call>,
    caller: Address,
)
    requires
        run(PollEngineView::empty(policy), earlier).is_registered(caller),
    ensures
        run(PollEngineView::empty(policy), earlier).create_poll_outcome(caller) == Ok::<
            int,
            FrameworkError,
        >(polls_created(PollEngineView::empty(policy), earlier) as int),
{
    law_identifiers_are_dense(policy, earlier);
}

} // verus!
