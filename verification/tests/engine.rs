use framework::{Address, FrameworkError, PollEngine, ResponsePolicy};

fn account(tag: u8) -> Address {
    Address::new([tag; 32])
}

fn text(s: &str) -> String {
    String::from(s)
}

/// An engine in which account 1 ("bob") is registered and has created poll 0.
fn engine_with_poll(policy: ResponsePolicy) -> PollEngine {
    let mut engine = PollEngine::with_policy(policy);
    engine.register_user(account(1), text("bob"));
    assert_eq!(engine.create_poll(account(1), text("T"), text("D"), 1), Ok(0));
    engine
}

#[test]
fn new_engine_is_empty() {
    let engine = PollEngine::new();
    assert_eq!(engine.user_count(), 0);
    assert_eq!(engine.next_poll_id(), 0);
    assert_eq!(engine.policy(), ResponsePolicy::AnyState);
    assert!(engine.get_poll(0).is_none());
    assert!(!engine.is_registered(&account(1)));
    assert!(engine.get_user(&account(1)).is_none());
    assert_eq!(PollEngine::with_policy(ResponsePolicy::OpenOnly).policy(), ResponsePolicy::OpenOnly);
}

#[test]
fn registering_twice_keeps_one_record_with_the_second_username() {
    let mut engine = PollEngine::new();
    let a = account(1);
    engine.register_user(a, text("first"));
    assert_eq!(engine.user_count(), 1);
    assert_eq!(engine.get_user(&a).unwrap().username, "first");
    engine.register_user(a, text("second"));
    assert_eq!(engine.user_count(), 1);
    let user = engine.get_user(&a).unwrap();
    assert_eq!(user.address, a);
    assert_eq!(user.username, "second");
    assert!(user.descriptors.is_empty());
    assert!(engine.is_registered(&a));
}

#[test]
fn registering_again_leaves_other_users_alone() {
    let mut engine = PollEngine::new();
    engine.register_user(account(1), text("one"));
    engine.register_user(account(2), text("two"));
    engine.register_user(account(3), text("three"));
    engine.register_user(account(2), text("zwei"));
    assert_eq!(engine.user_count(), 3);
    assert_eq!(engine.get_user(&account(1)).unwrap().username, "one");
    assert_eq!(engine.get_user(&account(2)).unwrap().username, "zwei");
    assert_eq!(engine.get_user(&account(3)).unwrap().username, "three");
    assert!(engine.get_user(&account(4)).is_none());
}

#[test]
fn two_addresses_may_share_a_username() {
    let mut engine = PollEngine::new();
    engine.register_user(account(1), text("same"));
    engine.register_user(account(2), text("same"));
    assert_eq!(engine.user_count(), 2);
    assert_eq!(engine.get_user(&account(1)).unwrap().address, account(1));
    assert_eq!(engine.get_user(&account(2)).unwrap().address, account(2));
}

#[test]
fn unregistered_caller_creates_no_poll() {
    let mut engine = PollEngine::new();
    engine.register_user(account(1), text("bob"));
    assert_eq!(
        engine.create_poll(account(2), text("T"), text("D"), 5),
        Err(FrameworkError::CallerNotRegistered)
    );
    assert_eq!(engine.next_poll_id(), 0);
    assert!(engine.get_poll(0).is_none());
    assert_eq!(engine.create_poll(account(1), text("T"), text("D"), 5), Ok(0));
    assert_eq!(engine.next_poll_id(), 1);
}

#[test]
fn identifiers_count_up_from_zero_without_gaps() {
    let mut engine = PollEngine::new();
    engine.register_user(account(1), text("bob"));
    engine.register_user(account(2), text("eve"));
    let mut assigned = Vec::new();
    for round in 0..5u8 {
        assert_eq!(
            engine.create_poll(account(9), text("no"), text("no"), 1),
            Err(FrameworkError::CallerNotRegistered)
        );
        let author = account(1 + round % 2);
        assigned.push(engine.create_poll(author, format!("t{}", round), text("d"), 1).unwrap());
        assert_eq!(engine.respond_to_poll(account(2), 0, text("r")).is_ok(), round == 0);
    }
    assert_eq!(assigned, vec![0, 1, 2, 3, 4]);
    assert_eq!(engine.next_poll_id(), 5);
    for id in 0..5i64 {
        let poll = engine.get_poll(id).unwrap();
        assert_eq!(poll.id, id);
        assert_eq!(poll.title, format!("t{}", id));
    }
    assert!(engine.get_poll(5).is_none());
    assert!(engine.get_poll(-1).is_none());
    assert!(engine.get_poll(i64::MAX).is_none());
    assert!(engine.get_poll(i64::MIN).is_none());
}

#[test]
fn end_to_end_register_create_get() {
    let mut engine = PollEngine::new();
    let b = account(0xB0);
    engine.register_user(b, text("bob"));
    assert_eq!(engine.create_poll(b, text("T"), text("D"), 1), Ok(0));
    let poll = engine.get_poll(0).unwrap();
    assert_eq!(poll.id, 0);
    assert_eq!(poll.author, b);
    assert_eq!(poll.title, "T");
    assert_eq!(poll.description, "D");
    assert_eq!(poll.reward, 1);
    assert!(poll.open);
    assert!(poll.responses.is_empty());
    assert!(poll.participants.is_empty());
}

#[test]
fn no_reward_is_too_low() {
    let mut engine = PollEngine::new();
    engine.register_user(account(1), text("bob"));
    assert_eq!(engine.create_poll(account(1), text("free"), text(""), 0), Ok(0));
    assert_eq!(engine.create_poll(account(1), text("rich"), text(""), u128::MAX), Ok(1));
    assert_eq!(engine.get_poll(0).unwrap().reward, 0);
    assert_eq!(engine.get_poll(1).unwrap().reward, u128::MAX);
}

#[test]
fn second_response_from_the_same_address_is_ignored() {
    let mut engine = engine_with_poll(ResponsePolicy::AnyState);
    engine.register_user(account(2), text("eve"));
    assert_eq!(engine.respond_to_poll(account(2), 0, text("x")), Ok(()));
    assert_eq!(
        engine.respond_to_poll(account(2), 0, text("y")),
        Err(FrameworkError::UserAlreadyResponded)
    );
    let poll = engine.get_poll(0).unwrap();
    assert_eq!(poll.responses, vec![text("x")]);
    assert_eq!(poll.participants, vec![account(2)]);
}

#[test]
fn responses_and_participants_grow_side_by_side() {
    let mut engine = engine_with_poll(ResponsePolicy::AnyState);
    engine.register_user(account(2), text("eve"));
    engine.register_user(account(3), text("dan"));
    assert_eq!(engine.respond_to_poll(account(3), 0, text("from dan")), Ok(()));
    assert_eq!(engine.respond_to_poll(account(1), 0, text("from bob")), Ok(()));
    assert_eq!(engine.respond_to_poll(account(2), 0, text("from eve")), Ok(()));
    assert_eq!(
        engine.respond_to_poll(account(1), 0, text("again")),
        Err(FrameworkError::UserAlreadyResponded)
    );
    let poll = engine.get_poll(0).unwrap();
    assert_eq!(poll.responses, vec![text("from dan"), text("from bob"), text("from eve")]);
    assert_eq!(poll.participants, vec![account(3), account(1), account(2)]);
    assert_eq!(poll.title, "T");
    assert_eq!(poll.author, account(1));
    assert!(poll.open);
}

#[test]
fn responses_to_one_poll_leave_the_others_alone() {
    let mut engine = engine_with_poll(ResponsePolicy::AnyState);
    assert_eq!(engine.create_poll(account(1), text("T1"), text("D1"), 2), Ok(1));
    assert_eq!(engine.respond_to_poll(account(1), 1, text("x")), Ok(()));
    assert!(engine.get_poll(0).unwrap().responses.is_empty());
    assert_eq!(engine.get_poll(1).unwrap().responses, vec![text("x")]);
    assert_eq!(engine.respond_to_poll(account(1), 0, text("y")), Ok(()));
    assert_eq!(engine.get_poll(0).unwrap().responses, vec![text("y")]);
    assert_eq!(engine.get_poll(1).unwrap().responses, vec![text("x")]);
}

#[test]
fn responding_needs_a_registered_caller_and_an_existing_poll() {
    let mut engine = engine_with_poll(ResponsePolicy::AnyState);
    assert_eq!(
        engine.respond_to_poll(account(7), 0, text("x")),
        Err(FrameworkError::CallerNotRegistered)
    );
    assert_eq!(
        engine.respond_to_poll(account(7), 99, text("x")),
        Err(FrameworkError::CallerNotRegistered)
    );
    assert_eq!(engine.respond_to_poll(account(1), 1, text("x")), Err(FrameworkError::PollNotFound));
    assert_eq!(engine.respond_to_poll(account(1), -1, text("x")), Err(FrameworkError::PollNotFound));
    let poll = engine.get_poll(0).unwrap();
    assert!(poll.responses.is_empty());
    assert!(poll.participants.is_empty());
}

#[test]
fn closing_by_someone_else_changes_nothing() {
    let mut engine = engine_with_poll(ResponsePolicy::AnyState);
    engine.register_user(account(2), text("eve"));
    assert_eq!(engine.close_poll(account(2), 0), Err(FrameworkError::NotPollAuthor));
    assert!(engine.get_poll(0).unwrap().open);
    assert_eq!(engine.close_poll(account(3), 0), Err(FrameworkError::CallerNotRegistered));
    assert!(engine.get_poll(0).unwrap().open);
}

#[test]
fn closing_needs_an_existing_poll() {
    let mut engine = engine_with_poll(ResponsePolicy::AnyState);
    assert_eq!(engine.close_poll(account(1), 1), Err(FrameworkError::PollNotFound));
    assert_eq!(engine.close_poll(account(1), -5), Err(FrameworkError::PollNotFound));
    assert_eq!(engine.close_poll(account(8), 1), Err(FrameworkError::CallerNotRegistered));
    assert!(engine.get_poll(0).unwrap().open);
}

#[test]
fn the_author_closes_and_closing_again_changes_nothing() {
    let mut engine = engine_with_poll(ResponsePolicy::AnyState);
    assert_eq!(engine.create_poll(account(1), text("other"), text("D"), 1), Ok(1));
    assert!(engine.get_poll(0).unwrap().open);
    assert_eq!(engine.close_poll(account(1), 0), Ok(()));
    let poll = engine.get_poll(0).unwrap();
    assert!(!poll.open);
    assert_eq!(poll.id, 0);
    assert_eq!(poll.title, "T");
    assert_eq!(poll.author, account(1));
    assert_eq!(engine.close_poll(account(1), 0), Ok(()));
    assert!(!engine.get_poll(0).unwrap().open);
    assert!(engine.get_poll(1).unwrap().open);
}

#[test]
fn a_closed_poll_takes_answers_by_default() {
    let mut engine = engine_with_poll(ResponsePolicy::AnyState);
    assert_eq!(engine.close_poll(account(1), 0), Ok(()));
    assert_eq!(engine.respond_to_poll(account(1), 0, text("late")), Ok(()));
    let poll = engine.get_poll(0).unwrap();
    assert!(!poll.open);
    assert_eq!(poll.responses, vec![text("late")]);
    assert_eq!(poll.participants, vec![account(1)]);
}

#[test]
fn a_closed_poll_takes_no_answers_where_the_policy_says_so() {
    let mut engine = engine_with_poll(ResponsePolicy::OpenOnly);
    engine.register_user(account(2), text("eve"));
    assert_eq!(engine.respond_to_poll(account(2), 0, text("early")), Ok(()));
    assert_eq!(engine.close_poll(account(1), 0), Ok(()));
    assert_eq!(engine.respond_to_poll(account(1), 0, text("late")), Err(FrameworkError::PollClosed));
    assert_eq!(engine.respond_to_poll(account(2), 0, text("again")), Err(FrameworkError::PollClosed));
    assert_eq!(
        engine.respond_to_poll(account(5), 0, text("late")),
        Err(FrameworkError::CallerNotRegistered)
    );
    let poll = engine.get_poll(0).unwrap();
    assert_eq!(poll.responses, vec![text("early")]);
    assert_eq!(poll.participants, vec![account(2)]);
}

#[test]
fn a_copy_of_a_poll_is_detached_from_the_engine() {
    let engine = engine_with_poll(ResponsePolicy::AnyState);
    let mut copy = engine.get_poll(0).unwrap();
    copy.open = false;
    copy.responses.push(text("x"));
    let again = engine.get_poll(0).unwrap();
    assert!(again.open);
    assert!(again.responses.is_empty());
    let twin = again.clone();
    assert_eq!(twin.id, again.id);
    assert_eq!(twin.title, again.title);
    assert_eq!(twin.participants, again.participants);
}

#[test]
fn polls_stay_put_when_users_register() {
    let mut engine = engine_with_poll(ResponsePolicy::AnyState);
    engine.register_user(account(1), text("robert"));
    engine.register_user(account(2), text("eve"));
    let poll = engine.get_poll(0).unwrap();
    assert_eq!(poll.author, account(1));
    assert_eq!(poll.title, "T");
    assert_eq!(engine.next_poll_id(), 1);
    assert_eq!(engine.close_poll(account(1), 0), Ok(()));
}
