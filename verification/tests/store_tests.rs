use pastebin::author::Deriver;
use pastebin::error::PasteError;
use pastebin::store::{create_paste, validate_id, PasteStore};

#[test]
fn create_then_get_round_trips() {
    let mut store = PasteStore::new();
    let deriver = Deriver::new(String::from("p"));
    let id = create_paste(
        &mut store,
        &deriver,
        Some("203.0.113.5"),
        String::from("Hi"),
        String::from("World"),
    )
    .expect("create failed");
    assert_eq!(id.len(), 24);
    assert!(id.chars().all(|c| c.is_ascii_hexdigit() && !c.is_ascii_uppercase()));

    let paste = store.get_by_id(&id).expect("lookup failed");
    assert_eq!(paste.id, id);
    assert_eq!(paste.title, "Hi");
    assert_eq!(paste.content, "World");
    assert_eq!(
        paste.author_id,
        "0fc950e81a403feb7158aaaa776bb5a4fb6c5bd531a44d77112224edcdec79c9"
    );
}

#[test]
fn get_by_malformed_id_is_invalid_id() {
    let store = PasteStore::new();
    let r = store.get_by_id("not-a-valid-id-format");
    assert_eq!(r, Err(PasteError::InvalidId));
    assert!(!validate_id("not-a-valid-id-format"));
    assert!(!validate_id(""));
    assert!(!validate_id("0123456789abcdef0123456")); // 23 characters
    assert!(!validate_id("0123456789abcdef012345678")); // 25 characters
    assert!(!validate_id("0123456789abcdef0123456g")); // 'g' is not hex
    assert!(validate_id("0123456789abcdef01234567"));
    assert!(validate_id("0123456789ABCDEF01234567"));
}

#[test]
fn get_by_unused_valid_id_is_not_found() {
    let mut store = PasteStore::new();
    let deriver = Deriver::new(String::from("p"));
    create_paste(
        &mut store,
        &deriver,
        Some("198.51.100.7"),
        String::from("t"),
        String::from("c"),
    )
    .expect("create failed");
    let r = store.get_by_id("ffffffffffffffffffffffff");
    assert_eq!(r, Err(PasteError::NotFound));
}

#[test]
fn lookup_folds_hex_case() {
    let mut store = PasteStore::new();
    let deriver = Deriver::new(String::from("p"));
    let id = create_paste(
        &mut store,
        &deriver,
        Some("198.51.100.7"),
        String::from("t"),
        String::from("c"),
    )
    .expect("create failed");
    let upper = id.to_uppercase();
    let paste = store.get_by_id(&upper).expect("case-folded lookup failed");
    assert_eq!(paste.id, id);
}

#[test]
fn create_without_address_fails() {
    let mut store = PasteStore::new();
    let deriver = Deriver::new(String::from("p"));
    let r = create_paste(&mut store, &deriver, None, String::from("t"), String::from("c"));
    assert_eq!(r, Err(PasteError::AddressUnavailable));
    assert_eq!(store.list_by_author("").len(), 0);
}

#[test]
fn empty_title_and_content_are_accepted() {
    let mut store = PasteStore::new();
    let deriver = Deriver::new(String::from("p"));
    let id = create_paste(
        &mut store,
        &deriver,
        Some("203.0.113.9"),
        String::from(""),
        String::from(""),
    )
    .expect("create failed");
    let paste = store.get_by_id(&id).expect("lookup failed");
    assert_eq!(paste.title, "");
    assert_eq!(paste.content, "");
}

#[test]
fn two_creates_same_address_share_an_author() {
    let mut store = PasteStore::new();
    let deriver = Deriver::new(String::from("pep"));
    let addr = "203.0.113.5:1234";
    let first = create_paste(
        &mut store,
        &deriver,
        Some(addr),
        String::from("one"),
        String::from("1"),
    )
    .expect("first create failed");
    let second = create_paste(
        &mut store,
        &deriver,
        Some(addr),
        String::from("two"),
        String::from("2"),
    )
    .expect("second create failed");
    let third_party = create_paste(
        &mut store,
        &deriver,
        Some("198.51.100.1:9"),
        String::from("other"),
        String::from("x"),
    )
    .expect("third create failed");

    assert_ne!(first, second);
    let author = deriver.derive(addr);
    let listed = store.list_by_author(&author);
    let ids: Vec<String> = listed.iter().map(|p| p.id.clone()).collect();
    assert_eq!(ids, vec![first.clone(), second.clone()]);
    assert!(!ids.contains(&third_party));
    let authors: Vec<String> = listed.iter().map(|p| p.author_id.clone()).collect();
    assert_eq!(authors, vec![author.clone(), author.clone()]);
}

#[test]
fn list_by_unknown_author_is_empty() {
    let mut store = PasteStore::new();
    let deriver = Deriver::new(String::from("p"));
    create_paste(
        &mut store,
        &deriver,
        Some("203.0.113.5"),
        String::from("t"),
        String::from("c"),
    )
    .expect("create failed");
    assert_eq!(store.list_by_author("nobody").len(), 0);
    assert_eq!(store.list_by_author("").len(), 0);
}

#[test]
fn insert_with_id_refuses_a_duplicate_key() {
    let mut store = PasteStore::new();
    let id = String::from("0123456789abcdef01234567");
    let first = store.insert_with_id(
        id.clone(),
        String::from("t"),
        String::from("c"),
        String::from("a"),
    );
    assert_eq!(first, Ok(id.clone()));
    let second = store.insert_with_id(
        id.clone(),
        String::from("t2"),
        String::from("c2"),
        String::from("a"),
    );
    assert_eq!(second, Err(PasteError::StorageUnavailable));
    // The refused write left the store unchanged.
    let paste = store.get_by_id(&id).expect("lookup failed");
    assert_eq!(paste.title, "t");
}

#[test]
fn insert_with_id_refuses_a_malformed_or_uppercase_id() {
    let mut store = PasteStore::new();
    let r = store.insert_with_id(
        String::from("short"),
        String::from("t"),
        String::from("c"),
        String::from("a"),
    );
    assert_eq!(r, Err(PasteError::StorageUnavailable));
    let r = store.insert_with_id(
        String::from("0123456789ABCDEF01234567"),
        String::from("t"),
        String::from("c"),
        String::from("a"),
    );
    assert_eq!(r, Err(PasteError::StorageUnavailable));
}
