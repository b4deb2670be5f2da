use framework::{
    Address, CodeHash, Framework, FrameworkError, PollEngineRef, User, PROFILE_LIST_CAPACITY,
};

fn account(tag: u8) -> Address {
    Address::new([tag; 32])
}

fn registry() -> Framework {
    Framework::new(PollEngineRef { account: account(0xE0) })
}

fn texts(items: &[&str]) -> Vec<String> {
    items.iter().map(|s| String::from(*s)).collect()
}

fn numbered(prefix: &str, count: usize) -> Vec<String> {
    (0..count).map(|i| format!("{}{}", prefix, i)).collect()
}

#[test]
fn framework_test() {
    let mut contract: Framework = registry();
    let caller: Address = account(1);
    let username = String::from("Alice");
    let experience = vec![String::from("Software Developer"), String::from("Data Analyst")];
    let skills = vec![String::from("Rust"), String::from("Python"), String::from("SQL")];

    let created = contract.create_user(caller, username.clone(), experience.clone(), skills.clone());
    assert_eq!(created, Ok(()));

    let user = contract.get_user(username).unwrap();

    println!("Username: {}", user.username);
    assert_eq!(caller, user.address);
    assert_eq!(user.username, "Alice");
    assert_eq!(user.experience, experience);
    assert_eq!(user.skills, skills);
}

#[test]
fn new_registry_is_empty() {
    let engine = PollEngineRef { account: account(0x42) };
    let contract = Framework::new(engine);
    assert_eq!(contract.user_count(), 0);
    assert_eq!(contract.next_user_id(), 0);
    assert_eq!(contract.task_net().account, account(0x42));
    assert!(contract.get_user(String::from("alice")).is_none());
    assert!(contract.get_user(String::new()).is_none());
}

#[test]
fn instantiation_asks_for_no_funding_and_the_fixed_salt() {
    let hash = CodeHash::new([7u8; 32]);
    let request = Framework::instantiation(hash);
    assert_eq!(request.code_hash, hash);
    assert_eq!(request.endowment, 0);
    assert_eq!(request.salt, [0xDE, 0xAD, 0xBE, 0xEF]);
}

#[test]
fn colliding_username_keeps_the_first_profile() {
    let mut contract = registry();
    let first = account(1);
    let second = account(2);
    assert_eq!(
        contract.create_user(
            first,
            String::from("alice"),
            texts(&["dev"]),
            texts(&["rust", "python", "sql"]),
        ),
        Ok(())
    );
    assert_eq!(
        contract.create_user(second, String::from("alice"), Vec::new(), Vec::new()),
        Err(FrameworkError::UsernameTaken)
    );
    assert_eq!(contract.user_count(), 1);
    let user = contract.get_user(String::from("alice")).unwrap();
    assert_eq!(user.address, first);
    assert_ne!(user.address, second);
    assert_eq!(user.experience, texts(&["dev"]));
    assert_eq!(user.skills, texts(&["rust", "python", "sql"]));
}

#[test]
fn colliding_username_from_the_same_address_is_turned_down_too() {
    let mut contract = registry();
    let caller = account(1);
    assert_eq!(
        contract.create_user(caller, String::from("alice"), texts(&["a"]), texts(&["b"])),
        Ok(())
    );
    assert_eq!(
        contract.create_user(caller, String::from("alice"), texts(&["c"]), texts(&["d"])),
        Err(FrameworkError::UsernameTaken)
    );
    let user = contract.get_user(String::from("alice")).unwrap();
    assert_eq!(user.experience, texts(&["a"]));
    assert_eq!(user.skills, texts(&["b"]));
}

#[test]
fn twelve_skills_are_cut_to_the_first_ten() {
    let mut contract = registry();
    let skills = numbered("skill", 12);
    assert_eq!(
        contract.create_user(account(1), String::from("carol"), Vec::new(), skills.clone()),
        Ok(())
    );
    let user = contract.get_user(String::from("carol")).unwrap();
    assert_eq!(user.skills.len(), 10);
    assert_eq!(user.skills.len(), PROFILE_LIST_CAPACITY);
    assert_eq!(user.skills, skills[..10].to_vec());
    assert_eq!(user.skills[0], "skill0");
    assert_eq!(user.skills[9], "skill9");
    assert!(user.experience.is_empty());
}

#[test]
fn twelve_entries_of_experience_are_cut_to_the_first_ten() {
    let mut contract = registry();
    let experience = numbered("job", 12);
    assert_eq!(
        contract.create_user(account(1), String::from("dave"), experience.clone(), texts(&["x"])),
        Ok(())
    );
    let user = contract.get_user(String::from("dave")).unwrap();
    assert_eq!(user.experience, experience[..10].to_vec());
    assert_eq!(user.skills, texts(&["x"]));
}

#[test]
fn lists_at_or_under_capacity_are_copied_whole() {
    let mut contract = registry();
    let ten = numbered("s", 10);
    let nine = numbered("e", 9);
    assert_eq!(
        contract.create_user(account(1), String::from("erin"), nine.clone(), ten.clone()),
        Ok(())
    );
    let user = contract.get_user(String::from("erin")).unwrap();
    assert_eq!(user.experience, nine);
    assert_eq!(user.skills, ten);

    let eleven = numbered("s", 11);
    assert_eq!(
        contract.create_user(account(1), String::from("frank"), Vec::new(), eleven.clone()),
        Ok(())
    );
    let user = contract.get_user(String::from("frank")).unwrap();
    assert_eq!(user.skills, eleven[..10].to_vec());
}

#[test]
fn one_address_may_hold_several_profiles() {
    let mut contract = registry();
    let caller = account(3);
    assert_eq!(contract.create_user(caller, String::from("one"), Vec::new(), Vec::new()), Ok(()));
    assert_eq!(contract.create_user(caller, String::from("two"), Vec::new(), Vec::new()), Ok(()));
    assert_eq!(contract.user_count(), 2);
    assert_eq!(contract.get_user(String::from("one")).unwrap().address, caller);
    assert_eq!(contract.get_user(String::from("two")).unwrap().address, caller);
    assert_eq!(contract.get_user(String::from("two")).unwrap().username, "two");
}

#[test]
fn lookup_tells_usernames_apart() {
    let mut contract = registry();
    assert_eq!(
        contract.create_user(account(1), String::from("alice"), Vec::new(), texts(&["a"])),
        Ok(())
    );
    assert_eq!(
        contract.create_user(account(2), String::from("bob"), Vec::new(), texts(&["b"])),
        Ok(())
    );
    assert_eq!(contract.get_user(String::from("alice")).unwrap().address, account(1));
    assert_eq!(contract.get_user(String::from("bob")).unwrap().address, account(2));
    assert_eq!(contract.get_user(String::from("bob")).unwrap().skills, texts(&["b"]));
    assert!(contract.get_user(String::from("Alice")).is_none());
    assert!(contract.get_user(String::from("alic")).is_none());
    assert!(contract.get_user(String::from("carol")).is_none());
}

#[test]
fn creating_profiles_leaves_the_counter_and_the_engine_reference() {
    let mut contract = Framework::new(PollEngineRef { account: account(9) });
    assert_eq!(contract.create_user(account(1), String::from("a"), Vec::new(), Vec::new()), Ok(()));
    assert_eq!(
        contract.create_user(account(2), String::from("a"), Vec::new(), Vec::new()),
        Err(FrameworkError::UsernameTaken)
    );
    assert_eq!(contract.next_user_id(), 0);
    assert_eq!(contract.task_net().account, account(9));
    assert_eq!(contract.user_count(), 1);
}

#[test]
fn a_profile_made_directly_takes_its_parts_as_they_are() {
    let skills = numbered("s", 12);
    let user = User::new(account(5), String::from("gus"), texts(&["x", "y"]), skills.clone());
    assert_eq!(user.address, account(5));
    assert_eq!(user.username, "gus");
    assert_eq!(user.experience, texts(&["x", "y"]));
    assert_eq!(user.skills, skills);
    let copy = user.clone();
    assert_eq!(copy.address, user.address);
    assert_eq!(copy.username, user.username);
    assert_eq!(copy.experience, user.experience);
    assert_eq!(copy.skills, user.skills);
}

#[test]
fn addresses_are_equal_exactly_when_their_bytes_agree() {
    let mut bytes = [0u8; 32];
    let zero = Address::new(bytes);
    bytes[31] = 1;
    let last_differs = Address::new(bytes);
    bytes[31] = 0;
    bytes[0] = 1;
    let first_differs = Address::new(bytes);
    assert_eq!(zero, Address::new([0u8; 32]));
    assert_ne!(zero, last_differs);
    assert_ne!(zero, first_differs);
    assert_ne!(last_differs, first_differs);
    assert_eq!(zero.bytes, [0u8; 32]);
    assert_ne!(CodeHash::new([1u8; 32]), CodeHash::new([2u8; 32]));
}

#[test]
fn a_registry_is_restored_from_its_parts() {
    let mut contract = Framework::new(PollEngineRef { account: account(9) });
    assert_eq!(
        contract.create_user(account(1), String::from("alice"), texts(&["dev"]), numbered("s", 12)),
        Ok(())
    );
    assert_eq!(
        contract.create_user(account(2), String::from("bob"), Vec::new(), texts(&["sql"])),
        Ok(())
    );
    let users = contract.users();
    assert_eq!(users.len(), 2);
    assert_eq!(users[0].username, "alice");
    assert_eq!(users[0].skills.len(), 10);
    assert_eq!(users[1].username, "bob");
    assert_eq!(users[1].address, account(2));

    let mut restored =
        Framework::restore(users, contract.next_user_id(), contract.task_net()).unwrap();
    assert_eq!(restored.user_count(), 2);
    assert_eq!(restored.task_net().account, account(9));
    assert_eq!(restored.next_user_id(), 0);
    assert_eq!(restored.get_user(String::from("bob")).unwrap().skills, texts(&["sql"]));
    assert_eq!(
        restored.create_user(account(3), String::from("alice"), Vec::new(), Vec::new()),
        Err(FrameworkError::UsernameTaken)
    );
    assert_eq!(
        restored.create_user(account(3), String::from("carol"), Vec::new(), Vec::new()),
        Ok(())
    );
    assert_eq!(restored.user_count(), 3);
}

#[test]
fn parts_that_break_the_invariant_are_not_restored() {
    let engine = PollEngineRef { account: account(9) };
    let twice = vec![
        User::new(account(1), String::from("alice"), Vec::new(), Vec::new()),
        User::new(account(2), String::from("bob"), Vec::new(), Vec::new()),
        User::new(account(3), String::from("alice"), Vec::new(), Vec::new()),
    ];
    assert!(Framework::restore(twice, 0, engine).is_none());

    let long_skills = vec![User::new(account(1), String::from("a"), Vec::new(), numbered("s", 11))];
    assert!(Framework::restore(long_skills, 0, engine).is_none());

    let long_experience =
        vec![User::new(account(1), String::from("a"), numbered("e", 11), Vec::new())];
    assert!(Framework::restore(long_experience, 0, engine).is_none());

    let full = vec![User::new(account(1), String::from("a"), numbered("e", 10), numbered("s", 10))];
    let restored = Framework::restore(full, 7, engine).unwrap();
    assert_eq!(restored.next_user_id(), 7);
    assert_eq!(restored.user_count(), 1);

    assert_eq!(Framework::restore(Vec::new(), 0, engine).unwrap().user_count(), 0);
}
