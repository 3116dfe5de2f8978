use feedcore::profile::{convert_new_profile, CreateProfile};
use feedcore::store::{EntityStore, StoreError};

fn profile_named(store: &mut EntityStore, user_name: &str) -> i64 {
    store
        .insert_profile(
            user_name.to_string(),
            format!("{} {}", user_name, "Example"),
            "a profile".to_string(),
            None,
            None,
            None,
        )
        .unwrap()
        .id
}

#[test]
fn insert_profile_assigns_sequential_ids() {
    let mut store = EntityStore::new();
    let first = profile_named(&mut store, "alice");
    let second = profile_named(&mut store, "bob");
    assert_eq!(first, 1);
    assert_eq!(second, 2);
}

#[test]
fn select_profile_round_trip() {
    let mut store = EntityStore::new();
    let id = store
        .insert_profile(
            "alice".to_string(),
            "Alice Example".to_string(),
            "first user".to_string(),
            Some("north".to_string()),
            Some("https://example.invalid/alice".to_string()),
            Some(vec![1u8, 2, 3]),
        )
        .unwrap()
        .id;
    let row = store.select_profile(id).unwrap();
    assert_eq!(row.id, id);
    assert_eq!(row.user_name, "alice");
    assert_eq!(row.full_name, "Alice Example");
    assert_eq!(row.description, "first user");
    assert_eq!(row.region, Some("north".to_string()));
    assert_eq!(row.main_url, Some("https://example.invalid/alice".to_string()));
    assert_eq!(row.avatar, Some(vec![1u8, 2, 3]));
    assert!(store.select_profile(id + 1).is_none());
}

#[test]
fn insert_follow_requires_both_profiles() {
    let mut store = EntityStore::new();
    let alice = profile_named(&mut store, "alice");
    assert_eq!(
        store.insert_follow(alice, alice + 1),
        Err(StoreError::MissingReference)
    );
    assert_eq!(
        store.insert_follow(alice + 1, alice),
        Err(StoreError::MissingReference)
    );
    let bob = profile_named(&mut store, "bob");
    assert!(store.insert_follow(alice, bob).is_ok());
}

#[test]
fn select_follows_by_follower_filters_and_keeps_order() {
    let mut store = EntityStore::new();
    let alice = profile_named(&mut store, "alice");
    let bob = profile_named(&mut store, "bob");
    let carol = profile_named(&mut store, "carol");
    store.insert_follow(alice, bob).unwrap();
    store.insert_follow(bob, carol).unwrap();
    store.insert_follow(alice, carol).unwrap();
    let follows = store.select_follows_by_follower(alice);
    assert_eq!(follows.len(), 2);
    assert_eq!(follows[0].following_id, bob);
    assert_eq!(follows[1].following_id, carol);
    assert!(follows[0].updated_at < follows[1].updated_at);
    assert_eq!(store.select_follows_by_follower(carol).len(), 0);
}

#[test]
fn insert_message_requires_author() {
    let mut store = EntityStore::new();
    assert_eq!(
        store.insert_message(1, "hello", None),
        Err(StoreError::MissingReference)
    );
}

#[test]
fn failed_broadcast_insert_rolls_back_the_message_row() {
    let mut store = EntityStore::new();
    let alice = profile_named(&mut store, "alice");
    let would_be_id = store.insert_message(alice, "probe", None).unwrap().id;

    // A broadcast link naming a missing target refuses the whole unit of
    // work: the message row from that same call must not exist either.
    let missing_target = 9999;
    let refused = store.insert_message(alice, "quoting nothing", Some(missing_target));
    assert_eq!(refused, Err(StoreError::MissingReference));
    assert!(store.select_message(would_be_id + 1).is_none());

    // The id sequence did not move: the next successful insert reuses it.
    let next = store.insert_message(alice, "still here", None).unwrap().id;
    assert_eq!(next, would_be_id + 1);
}

#[test]
fn insert_response_message_links_to_the_original() {
    let mut store = EntityStore::new();
    let alice = profile_named(&mut store, "alice");
    let original = store.insert_message(alice, "hello", None).unwrap().id;
    let response = store
        .insert_response_message(alice, "re: hello", original)
        .unwrap();
    assert!(response > original);
    let fetched = store.select_message(response).unwrap();
    assert_eq!(fetched.body, Some("re: hello".to_string()));
    assert!(fetched.message_broadcast_id.is_none());
}

#[test]
fn failed_response_insert_rolls_back_the_message_row() {
    let mut store = EntityStore::new();
    let alice = profile_named(&mut store, "alice");
    let probe = store.insert_message(alice, "probe", None).unwrap().id;
    let refused = store.insert_response_message(alice, "re: nothing", 9999);
    assert_eq!(refused, Err(StoreError::MissingReference));
    assert!(store.select_message(probe + 1).is_none());
}

#[test]
fn exhausted_id_sequence_refuses_inserts() {
    let mut store = EntityStore::with_first_id(i64::MAX);
    let refused = store.insert_profile(
        "alice".to_string(),
        "Alice Example".to_string(),
        "late arrival".to_string(),
        None,
        None,
        None,
    );
    assert_eq!(refused, Err(StoreError::CapacityExhausted));
}

#[test]
fn broadcast_insert_needs_room_for_two_ids() {
    let mut store = EntityStore::with_first_id(i64::MAX - 2);
    let alice = profile_named(&mut store, "alice");
    let target = store.insert_message(alice, "hello", None).unwrap().id;
    // One id is left: the message row alone would fit, the link row not.
    let refused = store.insert_message(alice, "quote", Some(target));
    assert_eq!(refused, Err(StoreError::CapacityExhausted));
    assert!(store.select_message(target + 1).is_none());
}

#[test]
fn convert_new_profile_copies_every_field() {
    let new_profile = convert_new_profile(CreateProfile {
        user_name: "alice".to_string(),
        full_name: "Alice Example".to_string(),
        description: "first user".to_string(),
        region: Some("north".to_string()),
        main_url: None,
        avatar: Some(vec![9u8]),
    });
    assert_eq!(new_profile.user_name, "alice");
    assert_eq!(new_profile.full_name, "Alice Example");
    assert_eq!(new_profile.description, "first user");
    assert_eq!(new_profile.region, Some("north".to_string()));
    assert_eq!(new_profile.main_url, None);
    assert_eq!(new_profile.avatar, Some(vec![9u8]));
}
