use feedcore::feed::{append_broadcast_msg_to_msg, append_broadcast_msgs_to_msgs};
use feedcore::message::MessageWithProfileQueryResult;
use feedcore::store::EntityStore;

fn profile_named(store: &mut EntityStore, user_name: &str) -> i64 {
    store
        .insert_profile(
            user_name.to_string(),
            format!("{} {}", user_name, "Example"),
            "a profile".to_string(),
            None,
            None,
            None,
        )
        .unwrap()
        .id
}

fn plain_row(id: i64, link: Option<i64>) -> MessageWithProfileQueryResult {
    MessageWithProfileQueryResult {
        id,
        updated_at: 10 + id,
        body: Some(format!("message {}", id)),
        likes: 0,
        image: None,
        user_id: 1,
        user_name: "alice".to_string(),
        full_name: "Alice Example".to_string(),
        avatar: None,
        message_broadcast_id: link,
    }
}

#[test]
fn created_message_fetches_back_with_no_broadcast_fields() {
    let mut store = EntityStore::new();
    let alice = profile_named(&mut store, "alice");
    let m1 = store.insert_message(alice, "hello", None).unwrap().id;

    let row = store.select_message(m1).unwrap();
    assert_eq!(row.id, m1);
    assert_eq!(row.body, Some("hello".to_string()));
    assert_eq!(row.likes, 0);
    assert_eq!(row.image, None);
    assert_eq!(row.user_id, alice);
    assert_eq!(row.user_name, "alice");
    assert_eq!(row.full_name, "alice Example");
    assert_eq!(row.avatar, None);
    assert!(row.message_broadcast_id.is_none());
    assert!(row.message_broadcast_updated_at.is_none());
    assert!(row.message_broadcast_body.is_none());
    assert!(row.message_broadcast_likes.is_none());
    assert!(row.message_broadcast_image.is_none());
    assert!(row.message_broadcast_user_id.is_none());
    assert!(row.message_broadcast_user_name.is_none());
    assert!(row.message_broadcast_full_name.is_none());
    assert!(row.message_broadcast_avatar.is_none());
}

#[test]
fn fetching_an_unknown_id_is_empty_not_an_error() {
    let store = EntityStore::new();
    assert!(store.select_message(1).is_none());
}

#[test]
fn broadcast_message_merges_the_target_row() {
    let mut store = EntityStore::new();
    let alice = profile_named(&mut store, "alice");
    let a = store.insert_message(alice, "hello", None).unwrap().id;
    let b = store.insert_message(alice, "re: hello", Some(a)).unwrap().id;

    let fetched = store.select_message(b).unwrap();
    assert_eq!(fetched.id, b);
    assert_eq!(fetched.body, Some("re: hello".to_string()));
    assert_eq!(fetched.message_broadcast_id, Some(a));
    assert_eq!(fetched.message_broadcast_body, Some("hello".to_string()));
    assert_eq!(fetched.message_broadcast_likes, Some(0));
    assert_eq!(fetched.message_broadcast_user_id, Some(alice));
    assert_eq!(fetched.message_broadcast_user_name, Some("alice".to_string()));
    assert_eq!(
        fetched.message_broadcast_full_name,
        Some("alice Example".to_string())
    );
    assert_eq!(fetched.message_broadcast_image, None);
    assert_eq!(fetched.message_broadcast_avatar, None);

    let target = store.select_message(a).unwrap();
    assert_eq!(fetched.message_broadcast_updated_at, Some(target.updated_at));
}

#[test]
fn feed_is_newest_first_older_than_cursor_and_capped() {
    let mut store = EntityStore::new();
    let alice = profile_named(&mut store, "alice");
    let bob = profile_named(&mut store, "bob");
    let carol = profile_named(&mut store, "carol");
    let dave = profile_named(&mut store, "dave");
    store.insert_follow(dave, alice).unwrap();
    store.insert_follow(dave, bob).unwrap();

    let m1 = store.insert_message(alice, "a1", None).unwrap().id;
    let _other = store.insert_message(carol, "c1", None).unwrap().id;
    let m2 = store.insert_message(bob, "b1", None).unwrap().id;
    let m3 = store.insert_message(alice, "a2", None).unwrap().id;

    let cursor = i64::MAX;
    let page = store.select_messages(dave, cursor, 10);
    assert_eq!(page.len(), 3);
    assert_eq!(page[0].id, m3);
    assert_eq!(page[1].id, m2);
    assert_eq!(page[2].id, m1);
    assert!(page[0].updated_at > page[1].updated_at);
    assert!(page[1].updated_at > page[2].updated_at);

    // The page size caps the result at the newest rows.
    let capped = store.select_messages(dave, cursor, 2);
    assert_eq!(capped.len(), 2);
    assert_eq!(capped[0].id, m3);
    assert_eq!(capped[1].id, m2);

    // The cursor is strict: rows at or after it stay out.
    let m2_row = store.select_message(m2).unwrap();
    let older = store.select_messages(dave, m2_row.updated_at, 10);
    assert_eq!(older.len(), 1);
    assert_eq!(older[0].id, m1);

    // An empty page size yields an empty page.
    assert_eq!(store.select_messages(dave, cursor, 0).len(), 0);

    // A viewer who follows nobody sees nothing.
    assert_eq!(store.select_messages(carol, cursor, 10).len(), 0);
}

#[test]
fn feed_carries_broadcast_fields_for_quoting_rows() {
    let mut store = EntityStore::new();
    let alice = profile_named(&mut store, "alice");
    let bob = profile_named(&mut store, "bob");
    let dave = profile_named(&mut store, "dave");
    store.insert_follow(dave, alice).unwrap();
    store.insert_follow(dave, bob).unwrap();

    let a = store.insert_message(alice, "original a", None).unwrap().id;
    let b = store.insert_message(bob, "original b", None).unwrap().id;
    let qa = store.insert_message(bob, "quote of a", Some(a)).unwrap().id;
    let qb = store.insert_message(alice, "quote of b", Some(b)).unwrap().id;

    let page = store.select_messages(dave, i64::MAX, 10);
    assert_eq!(page.len(), 4);
    assert_eq!(page[0].id, qb);
    assert_eq!(page[0].message_broadcast_id, Some(b));
    assert_eq!(
        page[0].message_broadcast_body,
        Some("original b".to_string())
    );
    assert_eq!(page[0].message_broadcast_user_name, Some("bob".to_string()));
    assert_eq!(page[1].id, qa);
    assert_eq!(page[1].message_broadcast_id, Some(a));
    assert_eq!(
        page[1].message_broadcast_body,
        Some("original a".to_string())
    );
    assert!(page[2].message_broadcast_id.is_none());
    assert!(page[3].message_broadcast_id.is_none());

    // Each feed row agrees with the single fetch of its id.
    for row in &page {
        let single = store.select_message(row.id).unwrap();
        assert_eq!(single.id, row.id);
        assert_eq!(single.body, row.body);
        assert_eq!(single.message_broadcast_id, row.message_broadcast_id);
        assert_eq!(single.message_broadcast_body, row.message_broadcast_body);
    }
}

#[test]
fn merge_copies_target_fields_when_present() {
    let main = plain_row(5, Some(40));
    let mut target = plain_row(2, Some(40));
    target.body = Some("the original".to_string());
    target.likes = 7;
    target.user_name = "bob".to_string();

    let merged = append_broadcast_msg_to_msg(Some(&target), &main);
    assert_eq!(merged.id, 5);
    assert_eq!(merged.body, Some("message 5".to_string()));
    assert_eq!(merged.message_broadcast_id, Some(2));
    assert_eq!(merged.message_broadcast_body, Some("the original".to_string()));
    assert_eq!(merged.message_broadcast_likes, Some(7));
    assert_eq!(merged.message_broadcast_user_name, Some("bob".to_string()));
    assert_eq!(merged.message_broadcast_updated_at, Some(target.updated_at));

    let alone = append_broadcast_msg_to_msg(None, &main);
    assert_eq!(alone.id, 5);
    assert!(alone.message_broadcast_id.is_none());
}

#[test]
fn unresolved_link_degrades_only_its_own_row() {
    // Two page rows with links, but the batch resolves only the second: the
    // first row degrades to "no broadcast data", the second is unaffected.
    let rows = vec![plain_row(5, Some(40)), plain_row(6, Some(41)), plain_row(7, None)];
    let mut resolved = plain_row(3, Some(41));
    resolved.body = Some("still here".to_string());
    let batch = Some(vec![resolved]);

    let merged = append_broadcast_msgs_to_msgs(&batch, &rows);
    assert_eq!(merged.len(), 3);
    assert!(merged[0].message_broadcast_id.is_none());
    assert!(merged[0].message_broadcast_body.is_none());
    assert_eq!(merged[0].body, Some("message 5".to_string()));
    assert_eq!(merged[1].message_broadcast_id, Some(3));
    assert_eq!(merged[1].message_broadcast_body, Some("still here".to_string()));
    assert!(merged[2].message_broadcast_id.is_none());

    // A batch that failed to arrive degrades every row the same way.
    let degraded = append_broadcast_msgs_to_msgs(&None, &rows);
    assert_eq!(degraded.len(), 3);
    assert!(degraded.iter().all(|r| r.message_broadcast_id.is_none()));
    assert_eq!(degraded[1].body, Some("message 6".to_string()));
}

#[test]
fn scenario_alice_hello_and_the_quote() {
    let mut store = EntityStore::new();
    let p1 = profile_named(&mut store, "alice");

    let m1 = store.insert_message(p1, "hello", None).unwrap().id;
    let first = store.select_message(m1).unwrap();
    assert_eq!(first.body, Some("hello".to_string()));
    assert_eq!(first.user_name, "alice");
    assert!(first.message_broadcast_id.is_none());
    assert!(first.message_broadcast_updated_at.is_none());
    assert!(first.message_broadcast_body.is_none());
    assert!(first.message_broadcast_likes.is_none());
    assert!(first.message_broadcast_image.is_none());
    assert!(first.message_broadcast_user_id.is_none());
    assert!(first.message_broadcast_user_name.is_none());
    assert!(first.message_broadcast_full_name.is_none());
    assert!(first.message_broadcast_avatar.is_none());

    let m2 = store.insert_message(p1, "re: hello", Some(m1)).unwrap().id;
    let second = store.select_message(m2).unwrap();
    assert_eq!(second.message_broadcast_id, Some(m1));
    assert_eq!(second.message_broadcast_body, Some("hello".to_string()));
}
