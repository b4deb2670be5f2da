//! The profile registry that sits on top of the poll engine.

use vstd::prelude::*;
use crate::address::{Address, CodeHash};
use crate::aggregator_model::{
    engine_salt,
    last_match,
    lemma_last_match,
    FrameworkView,
    Instantiation,
    PollEngineRef,
    PROFILE_LIST_CAPACITY,
};
use crate::error::FrameworkError;
use crate::profile::{profile_views, User, UserView};
use crate::text::{copy_prefix, lemma_prefix};

verus! {

/// The profile registry.
///
/// It holds a reference to one instance of the poll engine, fixed when the
/// registry is made, and its own profiles, one per username. The profiles
/// have nothing to do with the engine's user registry.
pub struct Framework {
    users: Vec<User>,
    next_user_id: i64,
    task_net: PollEngineRef,
}

impl View for Framework {
    type V = FrameworkView;

    closed spec fn view(&self) -> FrameworkView {
        FrameworkView {
            users: self.user_views(),
            next_user_id: self.next_user_id as int,
            task_net: self.task_net,
        }
    }
}

impl Framework {
    spec fn user_views(&self) -> Seq<UserView> {
        profile_views(self.users@)
    }

    /// The registry is in a state that its operations can reach.
    pub closed spec fn wf(&self) -> bool {
        self@.inv()
    }

    /// A well-formed registry stands for a state that satisfies the state
    /// machine's invariant.
    pub proof fn lemma_wf_implies_inv(&self)
        requires
            self.wf(),
        ensures
            self@.inv(),
    {
    }

    /// What to ask of the host so that it makes the engine instance for a
    /// new registry: the engine's code, no funding, and the fixed salt.
    pub fn instantiation(tasknet_hash: CodeHash) -> (r: Instantiation)
        ensures
            r.code_hash == tasknet_hash,
            r.endowment == 0,
            r.salt@ == engine_salt(),
    {
        let salt: [u8; 4] = [0xDE, 0xAD, 0xBE, 0xEF];
        proof {
            assert(salt@ =~= engine_salt());
        }
        Instantiation { code_hash: tasknet_hash, endowment: 0, salt }
    }

    /// A registry without profiles that refers to the engine instance
    /// `task_net` from now on.
    pub fn new(task_net: PollEngineRef) -> (r: Framework)
        ensures
            r.wf(),
            r@ == FrameworkView::empty(task_net),
    {
        let r = Framework { users: Vec::new(), next_user_id: 0, task_net };
        proof {
            assert(r.user_views() =~= Seq::empty());
            assert(r@ =~= FrameworkView::empty(task_net));
        }
        r
    }

    /// The engine instance that this registry refers to.
    pub fn task_net(&self) -> (r: PollEngineRef)
        ensures
            r == self@.task_net,
    {
        self.task_net
    }

    /// The user counter.
    pub fn next_user_id(&self) -> (r: i64)
        ensures
            r == self@.next_user_id,
    {
        self.next_user_id
    }

    /// The number of profiles.
    pub fn user_count(&self) -> (r: usize)
        ensures
            r == self@.users.len(),
    {
        self.users.len()
    }

    /// Whether some profile goes by `username`.
    fn username_taken(&self, username: &String) -> (r: bool)
        ensures
            r == self@.has_username(username@),
    {
        let mut i: usize = 0;
        while i < self.users.len()
            invariant
                i <= self.users.len(),
                forall|k: int| 0 <= k < i ==> self.users[k].username@ != username@,
            decreases self.users.len() - i,
        {
            if self.users[i].username == *username {
                proof {
                    assert(self@.users[i as int].username == username@);
                }
                return true;
            }
            i += 1;
        }
        proof {
            assert forall|k: int| 0 <= k < self@.users.len() implies (
            #[trigger] self@.users[k]).username != username@ by {
                assert(self.users[k].username@ != username@);
            }
        }
        false
    }

    /// Creates the caller's profile under `username`.
    ///
    /// If a profile already goes by that username, whoever created it, the
    /// call is turned down and nothing changes. Otherwise a profile is added
    /// after the existing ones, with the caller as its address and with the
    /// leading entries of `experience` and of `skills`, in order, as many of
    /// each as the capacity allows; entries beyond that are dropped.
    pub fn create_user(
        &mut self,
        caller: Address,
        username: String,
        experience: Vec<String>,
        skills: Vec<String>,
    ) -> (r: Result<(), FrameworkError>)
        requires
            old(self).wf(),
        ensures
            final(self).wf(),
            r == old(self)@.create_user_outcome(username@),
            final(self)@ == old(self)@.create_user(
                caller,
                username@,
                experience.deep_view(),
                skills.deep_view(),
            ),
    {
        if self.username_taken(&username) {
            return Err(FrameworkError::UsernameTaken);
        }
        let user = User::new(
            caller,
            username,
            copy_prefix(&experience, PROFILE_LIST_CAPACITY),
            copy_prefix(&skills, PROFILE_LIST_CAPACITY),
        );
        let ghost before = self.user_views();
        proof {
            lemma_prefix(experience.deep_view(), PROFILE_LIST_CAPACITY as nat);
            lemma_prefix(skills.deep_view(), PROFILE_LIST_CAPACITY as nat);
            assert(user@ =~= FrameworkView::new_profile(
                caller,
                username@,
                experience.deep_view(),
                skills.deep_view(),
            ));
        }
        self.users.push(user);
        proof {
            assert(self.user_views() =~= before.push(user@));
            assert(self@ =~= old(self)@.create_user(
                caller,
                username@,
                experience.deep_view(),
                skills.deep_view(),
            ));
            FrameworkView::lemma_create_user_keeps_inv(
                old(self)@,
                caller,
                username@,
                experience.deep_view(),
                skills.deep_view(),
            );
        }
        Ok(())
    }

    /// The profile that goes by `username`, or `None` if there is none.
    pub fn get_user(&self, username: String) -> (r: Option<User>)
        ensures
            r is Some <==> self@.has_username(username@),
            match r {
                Some(user) => self@.get_user(username@) == Some(user@),
                None => self@.get_user(username@) is None,
            },
    {
        let mut found: Option<usize> = None;
        let mut i: usize = 0;
        while i < self.users.len()
            invariant
                i <= self.users.len(),
                match found {
                    Some(k) => last_match(self.user_views().take(i as int), username@) == Some(
                        k as int,
                    ) && k < i,
                    None => last_match(self.user_views().take(i as int), username@) is None,
                },
            decreases self.users.len() - i,
        {
            proof {
                let next = self.user_views().take(i + 1);
                assert(next.drop_last() =~= self.user_views().take(i as int));
                assert(next.last() == self.users[i as int]@);
            }
            if self.users[i].username == username {
                found = Some(i);
            }
            i += 1;
        }
        proof {
            assert(self.user_views().take(i as int) =~= self.user_views());
            lemma_last_match(self.user_views(), username@);
        }
        match found {
            Some(k) => {
                proof {
                    assert(self.user_views()[k as int] == self.users[k as int]@);
                }
                Some(self.users[k].clone())
            },
            None => None,
        }
    }

    /// A copy of every profile, in the order of creation.
    pub fn users(&self) -> (r: Vec<User>)
        ensures
            profile_views(r@) == self@.users,
    {
        let mut copy: Vec<User> = Vec::with_capacity(self.users.len());
        let mut i: usize = 0;
        while i < self.users.len()
            invariant
                i <= self.users.len(),
                copy.len() == i,
                forall|k: int| 0 <= k < i ==> copy@[k]@ == self.users@[k]@,
            decreases self.users.len() - i,
        {
            copy.push(self.users[i].clone());
            i += 1;
        }
        proof {
            assert(profile_views(copy@) =~= self.user_views());
        }
        copy
    }

    /// Whether no profile in `users` holds more experience or skills than
    /// the capacity allows.
    fn within_capacity(users: &Vec<User>) -> (r: bool)
        ensures
            r == forall|i: int|
                0 <= i < users.len() ==> (#[trigger] profile_views(users@)[i]).experience.len()
                    <= PROFILE_LIST_CAPACITY && profile_views(users@)[i].skills.len()
                    <= PROFILE_LIST_CAPACITY,
    {
        let mut i: usize = 0;
        while i < users.len()
            invariant
                i <= users.len(),
                forall|k: int|
                    0 <= k < i ==> (#[trigger] profile_views(users@)[k]).experience.len()
                        <= PROFILE_LIST_CAPACITY && profile_views(users@)[k].skills.len()
                        <= PROFILE_LIST_CAPACITY,
            decreases users.len() - i,
        {
            if users[i].experience.len() > PROFILE_LIST_CAPACITY || users[i].skills.len()
                > PROFILE_LIST_CAPACITY {
                proof {
                    let v = profile_views(users@)[i as int];
                    assert(v.experience.len() == users[i as int].experience.len());
                    assert(v.skills.len() == users[i as int].skills.len());
                }
                return false;
            }
            proof {
                let v = profile_views(users@)[i as int];
                assert(v.experience.len() == users[i as int].experience.len());
                assert(v.skills.len() == users[i as int].skills.len());
            }
            i += 1;
        }
        true
    }

    /// Whether no two profiles in `users` share a username.
    fn usernames_distinct(users: &Vec<User>) -> (r: bool)
        ensures
            r == forall|i: int, j: int|
                0 <= i < j < users.len() ==> (#[trigger] profile_views(users@)[i]).username != (
                #[trigger] profile_views(users@)[j]).username,
    {
        let mut j: usize = 0;
        while j < users.len()
            invariant
                j <= users.len(),
                forall|a: int, b: int|
                    0 <= a < b < j ==> (#[trigger] profile_views(users@)[a]).username != (
                    #[trigger] profile_views(users@)[b]).username,
            decreases users.len() - j,
        {
            let mut i: usize = 0;
            while i < j
                invariant
                    i <= j,
                    j < users.len(),
                    forall|a: int|
                        0 <= a < i ==> (#[trigger] profile_views(users@)[a]).username
                            != profile_views(users@)[j as int].username,
                decreases j - i,
            {
                if users[i].username == users[j].username {
                    proof {
                        assert(profile_views(users@)[i as int].username == profile_views(
                            users@,
                        )[j as int].username);
                    }
                    return false;
                }
                i += 1;
            }
            j += 1;
        }
        true
    }

    /// The registry made of parts that were taken from a registry earlier:
    /// its profiles in order, its counter and its engine reference.
    ///
    /// Parts that break the registry's invariant, by two profiles under one
    /// username or by a list longer than the capacity, give `None`.
    pub fn restore(users: Vec<User>, next_user_id: i64, task_net: PollEngineRef) -> (r: Option<
        Framework,
    >)
        ensures
            r is Some <==> (FrameworkView {
                users: profile_views(users@),
                next_user_id: next_user_id as int,
                task_net,
            }).inv(),
            r matches Some(f) ==> f.wf() && f@ == (FrameworkView {
                users: profile_views(users@),
                next_user_id: next_user_id as int,
                task_net,
            }),
    {
        let ghost parts = FrameworkView {
            users: profile_views(users@),
            next_user_id: next_user_id as int,
            task_net,
        };
        proof {
            assert(parts.users.len() == users.len());
        }
        if !Framework::within_capacity(&users) {
            proof {
                let i = choose|i: int|
                    0 <= i < users.len() && !((#[trigger] profile_views(users@)[i]).experience.len()
                        <= PROFILE_LIST_CAPACITY && profile_views(users@)[i].skills.len()
                        <= PROFILE_LIST_CAPACITY);
                assert(!(parts.users[i].experience.len() <= PROFILE_LIST_CAPACITY
                    && parts.users[i].skills.len() <= PROFILE_LIST_CAPACITY));
            }
            return None;
        }
        if !Framework::usernames_distinct(&users) {
            proof {
                let (i, j) = choose|i: int, j: int|
                    0 <= i < j < users.len() && (#[trigger] profile_views(users@)[i]).username == (
                    #[trigger] profile_views(users@)[j]).username;
                assert(parts.users[i].username == parts.users[j].username);
            }
            return None;
        }
        let r = Framework { users, next_user_id, task_net };
        proof {
            assert(r@ =~= parts);
        }
        Some(r)
    }
}

} // verus!
