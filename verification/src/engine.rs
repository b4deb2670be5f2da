//! The poll engine: the user registry, the polls and their life cycle.

use vstd::prelude::*;
use crate::address::Address;
use crate::engine_model::PollEngineView;
use crate::error::FrameworkError;
use crate::poll::{PollRecord, PollView, RegisteredUser, RegisteredUserView, ResponsePolicy};

verus! {

/// The registry that a list of records stands for: each record under its own
/// address, a later record taking the place of an earlier one.
pub open spec fn registry(records: Seq<RegisteredUserView>) -> Map<Address, RegisteredUserView>
    decreases records.len(),
{
    if records.len() == 0 {
        Map::empty()
    } else {
        registry(records.drop_last()).insert(records.last().address, records.last())
    }
}

/// No two records share an address.
pub open spec fn distinct_addresses(records: Seq<RegisteredUserView>) -> bool {
    forall|i: int, j: int|
        0 <= i < j < records.len() ==> (#[trigger] records[i]).address != (
        #[trigger] records[j]).address
}

proof fn lemma_registry_domain(records: Seq<RegisteredUserView>)
    ensures
        registry(records).dom().finite(),
        forall|who: Address| #[trigger]
            registry(records).contains_key(who) <==> exists|i: int|
                0 <= i < records.len() && (#[trigger] records[i]).address == who,
        forall|who: Address| #[trigger]
            registry(records).contains_key(who) ==> registry(records)[who].address == who,
    decreases records.len(),
{
    if records.len() > 0 {
        let front = records.drop_last();
        lemma_registry_domain(front);
        assert forall|who: Address| #[trigger]
            registry(records).contains_key(who) implies exists|i: int|
            0 <= i < records.len() && (#[trigger] records[i]).address == who by {
            if who == records.last().address {
                assert(records[records.len() - 1].address == who);
            } else {
                let i = choose|i: int| 0 <= i < front.len() && (#[trigger] front[i]).address == who;
                assert(records[i].address == who);
            }
        }
        assert forall|who: Address|
            (exists|i: int|
                0 <= i < records.len() && (#[trigger] records[i]).address
                    == who) implies #[trigger] registry(records).contains_key(who) by {
            let i = choose|i: int| 0 <= i < records.len() && (#[trigger] records[i]).address == who;
            if i < records.len() - 1 {
                assert(front[i].address == who);
            }
        }
    }
}

proof fn lemma_registry_lookup(records: Seq<RegisteredUserView>, i: int)
    requires
        distinct_addresses(records),
        0 <= i < records.len(),
    ensures
        registry(records).contains_key(records[i].address),
        registry(records)[records[i].address] == records[i],
    decreases records.len(),
{
    let front = records.drop_last();
    if i < records.len() - 1 {
        assert(front[i] == records[i]);
        assert(distinct_addresses(front)) by {
            assert forall|a: int, b: int| 0 <= a < b < front.len() implies (#[trigger] front[a]).address
                != (#[trigger] front[b]).address by {
                assert(front[a] == records[a] && front[b] == records[b]);
            }
        }
        lemma_registry_lookup(front, i);
        assert(records[i].address != records[records.len() - 1].address);
    }
}

proof fn lemma_registry_replace(records: Seq<RegisteredUserView>, i: int, record: RegisteredUserView)
    requires
        distinct_addresses(records),
        0 <= i < records.len(),
        record.address == records[i].address,
    ensures
        distinct_addresses(records.update(i, record)),
        registry(records.update(i, record)) == registry(records).insert(record.address, record),
    decreases records.len(),
{
    let after = records.update(i, record);
    assert(distinct_addresses(after)) by {
        assert forall|a: int, b: int| 0 <= a < b < after.len() implies (#[trigger] after[a]).address
            != (#[trigger] after[b]).address by {
            assert(after[a].address == records[a].address);
            assert(after[b].address == records[b].address);
        }
    }
    let front = records.drop_last();
    if i == records.len() - 1 {
        assert(after.drop_last() =~= front);
        assert(registry(after) =~= registry(records).insert(record.address, record));
    } else {
        assert(distinct_addresses(front)) by {
            assert forall|a: int, b: int| 0 <= a < b < front.len() implies (#[trigger] front[a]).address
                != (#[trigger] front[b]).address by {
                assert(front[a] == records[a] && front[b] == records[b]);
            }
        }
        assert(front[i] == records[i]);
        lemma_registry_replace(front, i, record);
        assert(after.drop_last() =~= front.update(i, record));
        assert(after.last() == records.last());
        assert(records[i].address != records[records.len() - 1].address);
        assert(registry(after) =~= registry(records).insert(record.address, record));
    }
}

proof fn lemma_registry_len(records: Seq<RegisteredUserView>)
    requires
        distinct_addresses(records),
    ensures
        registry(records).dom().finite(),
        registry(records).dom().len() == records.len(),
    decreases records.len(),
{
    lemma_registry_domain(records);
    if records.len() > 0 {
        let front = records.drop_last();
        assert(distinct_addresses(front)) by {
            assert forall|a: int, b: int| 0 <= a < b < front.len() implies (#[trigger] front[a]).address
                != (#[trigger] front[b]).address by {
                assert(front[a] == records[a] && front[b] == records[b]);
            }
        }
        lemma_registry_len(front);
        lemma_registry_domain(front);
        let last = records.last();
        if registry(front).contains_key(last.address) {
            let i = choose|i: int| 0 <= i < front.len() && (#[trigger] front[i]).address == last.address;
            assert(records[i].address == records[records.len() - 1].address);
        }
        assert(registry(records).dom() =~= registry(front).dom().insert(last.address));
    }
}

/// The poll engine.
///
/// It owns the user registry and every poll. Users are kept one record per
/// address; polls are kept in the order of their creation, so that a poll's
/// identifier is its position.
pub struct PollEngine {
    users: Vec<RegisteredUser>,
    polls: Vec<PollRecord>,
    next_poll_id: i64,
    policy: ResponsePolicy,
}

impl View for PollEngine {
    type V = PollEngineView;

    closed spec fn view(&self) -> PollEngineView {
        PollEngineView {
            users: registry(self.user_views()),
            polls: self.poll_views(),
            next_poll_id: self.next_poll_id as int,
            policy: self.policy,
        }
    }
}

impl PollEngine {
    spec fn user_views(&self) -> Seq<RegisteredUserView> {
        self.users@.map_values(|u: RegisteredUser| u@)
    }

    spec fn poll_views(&self) -> Seq<PollView> {
        self.polls@.map_values(|p: PollRecord| p@)
    }

    /// The engine is in a state that its operations can reach.
    pub closed spec fn wf(&self) -> bool {
        &&& distinct_addresses(self.user_views())
        &&& self@.inv()
    }

    /// A well-formed engine stands for a state that satisfies the state
    /// machine's invariant.
    pub proof fn lemma_wf_implies_inv(&self)
        requires
            self.wf(),
        ensures
            self@.inv(),
    {
    }

    /// An engine with nobody registered and no poll, which records answers
    /// to open and closed polls alike.
    pub fn new() -> (r: PollEngine)
        ensures
            r.wf(),
            r@ == PollEngineView::empty(ResponsePolicy::AnyState),
    {
        PollEngine::with_policy(ResponsePolicy::AnyState)
    }

    /// An engine with nobody registered and no poll, which treats answers to
    /// closed polls as `policy` says.
    pub fn with_policy(policy: ResponsePolicy) -> (r: PollEngine)
        ensures
            r.wf(),
            r@ == PollEngineView::empty(policy),
    {
        let r = PollEngine { users: Vec::new(), polls: Vec::new(), next_poll_id: 0, policy };
        proof {
            assert(r.user_views() =~= Seq::empty());
            assert(r.poll_views() =~= Seq::empty());
            assert(r@ =~= PollEngineView::empty(policy));
        }
        r
    }

    /// The position of `who`'s record in the registry.
    fn find_user(&self, who: &Address) -> (r: Option<usize>)
        ensures
            match r {
                Some(i) => i < self.users.len() && self.users[i as int].address == *who,
                None => forall|i: int| 0 <= i < self.users.len() ==> self.users[i].address != *who,
            },
    {
        let mut i: usize = 0;
        while i < self.users.len()
            invariant
                i <= self.users.len(),
                forall|k: int| 0 <= k < i ==> self.users[k].address != *who,
            decreases self.users.len() - i,
        {
            if self.users[i].address == *who {
                return Some(i);
            }
            i += 1;
        }
        None
    }

    /// Whether `who` holds a record in the user registry.
    pub fn is_registered(&self, who: &Address) -> (r: bool)
        requires
            self.wf(),
        ensures
            r == self@.is_registered(*who),
    {
        let found = self.find_user(who);
        proof {
            lemma_registry_domain(self.user_views());
            match found {
                Some(i) => {
                    assert(self.user_views()[i as int].address == *who);
                },
                None => {
                    assert forall|i: int| 0 <= i < self.user_views().len() implies (
                    #[trigger] self.user_views()[i]).address != *who by {
                        assert(self.users[i].address != *who);
                    }
                },
            }
        }
        found.is_some()
    }

    /// The record that `who` holds in the user registry, if any.
    pub fn get_user(&self, who: &Address) -> (r: Option<RegisteredUser>)
        requires
            self.wf(),
        ensures
            r is Some <==> self@.is_registered(*who),
            r matches Some(user) ==> user@ == self@.users[*who],
    {
        let registered = self.is_registered(who);
        match self.find_user(who) {
            Some(i) => {
                proof {
                    assert(self.user_views()[i as int] == self.users[i as int]@);
                    lemma_registry_lookup(self.user_views(), i as int);
                }
                Some(self.users[i].clone())
            },
            None => {
                proof {
                    lemma_registry_domain(self.user_views());
                    if registered {
                        let k = choose|k: int|
                            0 <= k < self.user_views().len() && (
                            #[trigger] self.user_views()[k]).address == *who;
                        assert(self.users[k].address != *who);
                    }
                }
                None
            },
        }
    }

    /// The number of records in the user registry.
    pub fn user_count(&self) -> (r: usize)
        requires
            self.wf(),
        ensures
            r == self@.users.dom().len(),
    {
        proof {
            lemma_registry_len(self.user_views());
        }
        self.users.len()
    }

    /// The identifier that the next poll will get, which is also the number
    /// of polls created so far.
    pub fn next_poll_id(&self) -> (r: i64)
        ensures
            r == self@.next_poll_id,
    {
        self.next_poll_id
    }

    /// Whether this engine takes answers to closed polls.
    pub fn policy(&self) -> (r: ResponsePolicy)
        ensures
            r == self@.policy,
    {
        self.policy
    }

    /// Registers the caller under `username`.
    ///
    /// This always succeeds. A caller who was registered before gets a new
    /// record in place of the old one; nobody else's record changes.
    pub fn register_user(&mut self, caller: Address, username: String)
        requires
            old(self).wf(),
        ensures
            final(self).wf(),
            final(self)@ == old(self)@.register_user(caller, username@),
    {
        let record = RegisteredUser { address: caller, username, descriptors: Vec::new() };
        let ghost before = self.user_views();
        let ghost polls_before = self.poll_views();
        proof {
            assert(record.descriptors.deep_view() =~= Seq::<Seq<char>>::empty());
            lemma_registry_domain(before);
        }
        match self.find_user(&caller) {
            Some(i) => {
                proof {
                    assert(before[i as int].address == caller);
                    lemma_registry_replace(before, i as int, record@);
                }
                self.users[i] = record;
                proof {
                    assert(self.user_views() =~= before.update(i as int, record@));
                }
            },
            None => {
                self.users.push(record);
                proof {
                    assert(self.user_views() =~= before.push(record@));
                    assert(self.user_views().drop_last() =~= before);
                    assert forall|a: int, b: int|
                        0 <= a < b < self.user_views().len() implies (
                    #[trigger] self.user_views()[a]).address != (
                    #[trigger] self.user_views()[b]).address by {
                        if b < before.len() {
                            assert(before[a].address != before[b].address);
                        } else {
                            assert(old(self).users[a].address != caller);
                        }
                    }
                }
            },
        }
        proof {
            assert(self.poll_views() == polls_before);
            assert(self@ =~= old(self)@.register_user(caller, username@));
            lemma_registry_domain(self.user_views());
            PollEngineView::lemma_register_user_keeps_inv(old(self)@, caller, username@);
        }
    }

    /// Creates a poll authored by the caller and reports its identifier.
    ///
    /// A caller without a record in the user registry is turned down, and
    /// neither the polls nor the counter change. Otherwise the poll gets the
    /// counter's value as its identifier, starts open and unanswered, and the
    /// counter goes up by one. No reward is too low.
    pub fn create_poll(
        &mut self,
        caller: Address,
        title: String,
        description: String,
        reward: u128,
    ) -> (r: Result<i64, FrameworkError>)
        requires
            old(self).wf(),
            old(self)@.next_poll_id < i64::MAX,
        ensures
            final(self).wf(),
            final(self)@ == old(self)@.create_poll(caller, title@, description@, reward as nat),
            match r {
                Ok(id) => old(self)@.create_poll_outcome(caller) == Ok::<int, FrameworkError>(
                    id as int,
                ),
                Err(e) => old(self)@.create_poll_outcome(caller) == Err::<int, FrameworkError>(e),
            },
    {
        if !self.is_registered(&caller) {
            return Err(FrameworkError::CallerNotRegistered);
        }
        let id = self.next_poll_id;
        let record = PollRecord {
            id,
            author: caller,
            title,
            description,
            reward,
            responses: Vec::new(),
            participants: Vec::new(),
            open: true,
        };
        let ghost polls_before = self.poll_views();
        proof {
            assert(record.responses.deep_view() =~= Seq::<Seq<char>>::empty());
            assert(record@ =~= PollView::fresh(
                id as int,
                caller,
                title@,
                description@,
                reward as nat,
            ));
        }
        self.polls.push(record);
        self.next_poll_id = id + 1;
        proof {
            assert(self.poll_views() =~= polls_before.push(record@));
            assert(self.user_views() == old(self).user_views());
            assert(self@ =~= old(self)@.create_poll(caller, title@, description@, reward as nat));
            PollEngineView::lemma_create_poll_keeps_inv(
                old(self)@,
                caller,
                title@,
                description@,
                reward as nat,
            );
        }
        Ok(id)
    }

    /// The poll created under `poll_id`, or `None` if that identifier was
    /// never handed out.
    pub fn get_poll(&self, poll_id: i64) -> (r: Option<PollRecord>)
        requires
            self.wf(),
        ensures
            r is Some <==> self@.has_poll(poll_id as int),
            r matches Some(poll) ==> poll@ == self@.polls[poll_id as int],
    {
        match self.poll_index(poll_id) {
            Some(i) => Some(self.polls[i].clone()),
            None => None,
        }
    }

    /// The position of the poll created under `poll_id`.
    fn poll_index(&self, poll_id: i64) -> (r: Option<usize>)
        requires
            self.wf(),
        ensures
            r is Some <==> self@.has_poll(poll_id as int),
            r matches Some(i) ==> i == poll_id && i < self.polls.len() && self.polls[i as int]@
                == self@.polls[poll_id as int],
    {
        if poll_id < 0 {
            return None;
        }
        if poll_id >= self.next_poll_id {
            return None;
        }
        proof {
            assert(self.poll_views().len() == self.polls.len());
            assert(self.poll_views()[poll_id as int] == self.polls[poll_id as int]@);
        }
        let i = poll_id as usize;
        Some(i)
    }

    /// Whether `who` is among `participants`.
    fn has_answered(participants: &Vec<Address>, who: &Address) -> (r: bool)
        ensures
            r == participants@.contains(*who),
    {
        let mut i: usize = 0;
        while i < participants.len()
            invariant
                i <= participants.len(),
                forall|k: int| 0 <= k < i ==> participants@[k] != *who,
            decreases participants.len() - i,
        {
            if participants[i] == *who {
                return true;
            }
            i += 1;
        }
        false
    }

    /// Records the caller's answer to a poll.
    ///
    /// The call is turned down, and nothing changes, when the caller is not
    /// registered, when the poll does not exist, when the poll is closed and
    /// the engine takes answers to open polls only, or when the caller has
    /// answered this poll before; the first of these that applies is
    /// reported. Otherwise the answer and the caller are appended, side by
    /// side, to the poll's answers and participants.
    pub fn respond_to_poll(&mut self, caller: Address, poll_id: i64, response: String) -> (r:
        Result<(), FrameworkError>)
        requires
            old(self).wf(),
        ensures
            final(self).wf(),
            r == old(self)@.respond_outcome(caller, poll_id as int),
            final(self)@ == old(self)@.respond_to_poll(caller, poll_id as int, response@),
    {
        if !self.is_registered(&caller) {
            return Err(FrameworkError::CallerNotRegistered);
        }
        let i = match self.poll_index(poll_id) {
            Some(i) => i,
            None => {
                return Err(FrameworkError::PollNotFound);
            },
        };
        if self.policy == ResponsePolicy::OpenOnly && !self.polls[i].open {
            return Err(FrameworkError::PollClosed);
        }
        if PollEngine::has_answered(&self.polls[i].participants, &caller) {
            return Err(FrameworkError::UserAlreadyResponded);
        }
        let ghost polls_before = self.poll_views();
        let ghost poll_before = self.polls[i as int]@;
        let poll = &mut self.polls[i];
        poll.responses.push(response);
        poll.participants.push(caller);
        proof {
            let poll = self.polls[i as int];
            assert(poll.responses.deep_view() =~= poll_before.responses.push(response@));
            assert(poll@ =~= poll_before.with_response(caller, response@));
            assert(self.poll_views() =~= polls_before.update(i as int, poll@));
            assert(self.user_views() == old(self).user_views());
            assert(self@ =~= old(self)@.respond_to_poll(caller, poll_id as int, response@));
            PollEngineView::lemma_respond_keeps_inv(old(self)@, caller, poll_id as int, response@);
        }
        Ok(())
    }

    /// Closes a poll on behalf of its author.
    ///
    /// The call is turned down, and nothing changes, when the caller is not
    /// registered, when the poll does not exist, or when the caller is not
    /// the poll's author; the first of these that applies is reported.
    /// Otherwise the poll is closed from now on, whether it was open or not.
    pub fn close_poll(&mut self, caller: Address, poll_id: i64) -> (r: Result<(), FrameworkError>)
        requires
            old(self).wf(),
        ensures
            final(self).wf(),
            r == old(self)@.close_outcome(caller, poll_id as int),
            final(self)@ == old(self)@.close_poll(caller, poll_id as int),
    {
        if !self.is_registered(&caller) {
            return Err(FrameworkError::CallerNotRegistered);
        }
        let i = match self.poll_index(poll_id) {
            Some(i) => i,
            None => {
                return Err(FrameworkError::PollNotFound);
            },
        };
        if self.polls[i].author != caller {
            return Err(FrameworkError::NotPollAuthor);
        }
        let ghost polls_before = self.poll_views();
        let ghost poll_before = self.polls[i as int]@;
        self.polls[i].open = false;
        proof {
            let poll = self.polls[i as int];
            assert(poll@ =~= poll_before.closed());
            assert(self.poll_views() =~= polls_before.update(i as int, poll@));
            assert(self.user_views() == old(self).user_views());
            assert(self@ =~= old(self)@.close_poll(caller, poll_id as int));
            PollEngineView::lemma_close_keeps_inv(old(self)@, caller, poll_id as int);
        }
        Ok(())
    }
}

} // verus!
