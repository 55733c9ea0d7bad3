use char_store::handlers::create_char;
use char_store::handlers::create_char_with_id;
use char_store::handlers::delete_char_by_id;
use char_store::handlers::get_all_chars;
use char_store::handlers::get_char_by_id;
use char_store::handlers::greeting;
use char_store::handlers::update_char_by_id;
use char_store::handlers::StoreError;
use char_store::store::CharacterRequest;
use char_store::store::CharacterStore;

fn request(name: &str, abilities: &[&str], bio: &str) -> CharacterRequest {
    CharacterRequest {
        name: name.to_string(),
        abilities: abilities.iter().map(|a| a.to_string()).collect(),
        bio: bio.to_string(),
    }
}

#[test]
fn scenario_seed_create_delete() {
    let mut store = CharacterStore::new();
    let harry = create_char(
        &mut store,
        request("Harry", &["Parcel Tongue"], "Orphaned by Voldemort"),
    )
    .expect("create must succeed on a fresh store");

    let all = get_all_chars(&store);
    assert_eq!(all.len(), 1);
    assert_eq!(all[0].name, "Harry");
    assert_eq!(all[0].abilities, vec!["Parcel Tongue".to_string()]);
    assert_eq!(all[0].bio, "Orphaned by Voldemort");
    assert!(!all[0].id.is_empty());

    let hermione = create_char(
        &mut store,
        request("Hermione", &["Logic"], "Muggle-born witch"),
    )
    .expect("create must succeed on a fresh id");
    assert_ne!(hermione.id, harry.id);
    assert_eq!(hermione.name, "Hermione");

    let all = get_all_chars(&store);
    assert_eq!(all.len(), 2);
    assert_eq!(all[0].name, "Harry");
    assert_eq!(all[1].name, "Hermione");

    assert_eq!(delete_char_by_id(&mut store, &harry.id), Ok(()));
    let all = get_all_chars(&store);
    assert_eq!(all.len(), 1);
    assert_eq!(all[0].name, "Hermione");
    assert_eq!(all[0].id, hermione.id);

    match get_char_by_id(&store, &harry.id) {
        Err(e) => assert_eq!(e.message(), "Character not found"),
        Ok(_) => panic!("deleted id must not be found"),
    }
}

#[test]
fn creates_keep_order() {
    let mut store = CharacterStore::new();
    let names = ["a", "b", "c", "d", "e"];
    for name in names {
        create_char(&mut store, request(name, &[], "")).expect("create must succeed");
    }
    let all = get_all_chars(&store);
    assert_eq!(all.len(), names.len());
    for (record, name) in all.iter().zip(names) {
        assert_eq!(record.name, name);
    }
}

#[test]
fn created_ids_nonempty_and_distinct() {
    let mut store = CharacterStore::new();
    let mut ids: Vec<String> = Vec::new();
    for _ in 0..5 {
        let c = create_char(&mut store, request("x", &[], "")).expect("create must succeed");
        assert!(!c.id.is_empty());
        assert!(!ids.contains(&c.id));
        ids.push(c.id);
    }
}

#[test]
fn create_then_get_returns_equal_record() {
    let mut store = CharacterStore::new();
    create_char(&mut store, request("other", &["z"], "w")).expect("create must succeed");
    let created = create_char(&mut store, request("Luna", &["Spectrespecs", "Charms"], "Quibbler"))
        .expect("create must succeed");
    let fetched = get_char_by_id(&store, &created.id).expect("fresh id must be found");
    assert_eq!(fetched.id, created.id);
    assert_eq!(fetched.name, created.name);
    assert_eq!(fetched.abilities, created.abilities);
    assert_eq!(fetched.bio, created.bio);
}

#[test]
fn update_changes_fields_and_keeps_id() {
    let mut store = CharacterStore::new();
    let created = create_char(&mut store, request("Ron", &["Chess"], "Youngest brother"))
        .expect("create must succeed");
    let updated = update_char_by_id(
        &mut store,
        &created.id,
        request("Ronald", &["Chess", "Flying"], "Keeper"),
    )
    .expect("existing id must be updatable");
    assert_eq!(updated.id, created.id);
    assert_eq!(updated.name, "Ronald");
    assert_eq!(
        updated.abilities,
        vec!["Chess".to_string(), "Flying".to_string()]
    );
    assert_eq!(updated.bio, "Keeper");

    let fetched = get_char_by_id(&store, &created.id).expect("updated id must still be found");
    assert_eq!(fetched.id, created.id);
    assert_eq!(fetched.name, "Ronald");
    assert_eq!(
        fetched.abilities,
        vec!["Chess".to_string(), "Flying".to_string()]
    );
    assert_eq!(fetched.bio, "Keeper");
}

#[test]
fn delete_removes_exactly_one() {
    let mut store = CharacterStore::new();
    let a = create_char(&mut store, request("a", &[], "")).expect("create must succeed");
    let b = create_char(&mut store, request("b", &[], "")).expect("create must succeed");
    let c = create_char(&mut store, request("c", &[], "")).expect("create must succeed");

    assert_eq!(delete_char_by_id(&mut store, &b.id), Ok(()));
    let all = get_all_chars(&store);
    assert_eq!(all.len(), 2);
    assert_eq!(all[0].id, a.id);
    assert_eq!(all[1].id, c.id);
    assert!(matches!(
        get_char_by_id(&store, &b.id),
        Err(StoreError::NotFound)
    ));
}

#[test]
fn missing_id_fails_not_found_and_changes_nothing() {
    let mut store = CharacterStore::new();
    create_char(&mut store, request("a", &["x"], "y")).expect("create must succeed");
    let before = get_all_chars(&store);
    let missing = "no-such-id".to_string();

    assert!(matches!(
        get_char_by_id(&store, &missing),
        Err(StoreError::NotFound)
    ));
    assert!(matches!(
        update_char_by_id(&mut store, &missing, request("n", &[], "")),
        Err(StoreError::NotFound)
    ));
    assert_eq!(delete_char_by_id(&mut store, &missing), Err(StoreError::NotFound));

    let after = get_all_chars(&store);
    assert_eq!(after.len(), before.len());
    for (x, y) in before.iter().zip(after.iter()) {
        assert_eq!(x.id, y.id);
        assert_eq!(x.name, y.name);
        assert_eq!(x.abilities, y.abilities);
        assert_eq!(x.bio, y.bio);
    }
}

#[test]
fn duplicate_id_is_rejected() {
    let mut store = CharacterStore::new();
    let first = create_char_with_id(&mut store, "fixed".to_string(), request("a", &[], ""));
    assert!(first.is_some());
    let second = create_char_with_id(&mut store, "fixed".to_string(), request("b", &[], ""));
    assert!(second.is_none());
    let all = get_all_chars(&store);
    assert_eq!(all.len(), 1);
    assert_eq!(all[0].name, "a");
}

#[test]
fn empty_fields_are_accepted() {
    let mut store = CharacterStore::new();
    let c = create_char(&mut store, request("", &[], "")).expect("create must succeed");
    assert_eq!(c.name, "");
    assert!(c.abilities.is_empty());
    assert_eq!(c.bio, "");
    let fetched = get_char_by_id(&store, &c.id).expect("id must be found");
    assert_eq!(fetched.name, "");
}

#[test]
fn generated_id_is_short_slug() {
    let mut store = CharacterStore::new();
    let c = create_char(&mut store, request("a", &[], "")).expect("create must succeed");
    assert!(c.id.chars().count() >= 1);
    assert!(c.id.chars().count() <= 10);
}

#[test]
fn greeting_text() {
    assert_eq!(greeting(), "Hello, World!");
}

#[test]
fn not_found_message() {
    assert_eq!(StoreError::NotFound.message(), "Character not found");
}
