use std::collections::HashMap;

use locket::models::{Config, Database, Login, DEFAULT_PORT};
use locket::outcome::{CreateOutcome, ReadOutcome, WriteOutcome};
use locket::{LocketError, StoreError};

fn fresh() -> Database {
    Database::init("store.db", CreateOutcome::Created).unwrap()
}

fn login(name: &str, username: &str, password: &str) -> Login {
    Login::new(name.to_string(), username.to_string(), password.to_string())
}

#[test]
fn login_new_keeps_the_fields() {
    let made = login("github", "a", "p");
    assert_eq!(made.name, "github");
    assert_eq!(made.username, "a");
    assert_eq!(made.password, "p");
    assert_eq!(made.name(), "github");
}

#[test]
fn login_describe_quotes_name_and_username_and_hides_the_password() {
    let made = login("git\"hub", "a b", "secret");
    assert_eq!(made.describe(), "Login { name: \"git\\\"hub\", username: \"a b\" }");
}

#[test]
fn login_duplicate_is_equal_field_by_field() {
    let made = login("n", "u", "p");
    let copy = made.duplicate();
    assert_eq!(copy.name, "n");
    assert_eq!(copy.username, "u");
    assert_eq!(copy.password, "p");
}

#[test]
fn init_gives_an_empty_store_bound_to_the_path() {
    let db = fresh();
    assert_eq!(db.len(), 0);
    assert_eq!(db.path, "store.db");
    assert!(db.entries().is_empty());
}

#[test]
fn init_over_an_existing_file_is_refused() {
    let refused = Database::init("store.db", CreateOutcome::AlreadyExists);
    assert!(matches!(
        refused,
        Err(StoreError::AlreadyExists(LocketError::DatabaseAlreadyExistsError))
    ));
}

#[test]
fn init_hands_on_other_failures() {
    let refused = Database::init("store.db", CreateOutcome::Failed("disk full".to_string()));
    match refused {
        Err(StoreError::Io(why)) => assert_eq!(why, "disk full"),
        other => panic!("unexpected {:?}", other),
    }
}

#[test]
fn open_of_an_empty_file_is_an_empty_store() {
    let db = Database::open("some/path.db", ReadOutcome::Content(Vec::new())).unwrap();
    assert_eq!(db.len(), 0);
    assert_eq!(db.path, "some/path.db");
}

#[test]
fn open_of_a_missing_file_is_reported() {
    assert!(matches!(
        Database::open("p", ReadOutcome::NotFound),
        Err(StoreError::NotFound)
    ));
    match Database::open("p", ReadOutcome::Failed("denied".to_string())) {
        Err(StoreError::Io(why)) => assert_eq!(why, "denied"),
        other => panic!("unexpected {:?}", other),
    }
}

#[test]
fn open_of_rubbish_fails_as_a_whole() {
    assert!(matches!(
        Database::open("p", ReadOutcome::Content(vec![0xff, 0x00, 0x13])),
        Err(StoreError::Malformed)
    ));
    assert!(matches!(
        Database::from_bytes("p", &[0x91]),
        Err(StoreError::Malformed)
    ));
}

#[test]
fn add_query_remove_scenario() {
    let mut db = fresh();
    let id = db.add_login(login("github", "a", "p")).unwrap();
    let found = db.query(Some("gh"));
    assert_eq!(found.len(), 1);
    assert_eq!(found[0].0, id);
    assert_eq!(found[0].1.name, "github");
    assert!(db.query(Some("zz")).is_empty());
    let removed = db.remove(id).unwrap();
    assert_eq!(removed.name, "github");
    assert_eq!(removed.username, "a");
    assert_eq!(removed.password, "p");
    assert!(db.remove(id).is_none());
    let bytes = db.sync().unwrap();
    assert_eq!(bytes, vec![0x91, 0x80]);
    let back = Database::open("store.db", ReadOutcome::Content(bytes)).unwrap();
    assert_eq!(back.len(), 0);
}

#[test]
fn add_login_draws_a_random_identifier_each_time() {
    let mut db = fresh();
    let first = db.add_login(login("one", "u", "p")).unwrap();
    let second = db.add_login(login("two", "u", "p")).unwrap();
    assert_ne!(first, second);
    let mask = 0x0000_0000_0000_f000_c000_0000_0000_0000u128;
    let bits = 0x0000_0000_0000_4000_8000_0000_0000_0000u128;
    assert_eq!(first & mask, bits);
    assert_eq!(second & mask, bits);
    assert_eq!(uuid::Uuid::from_u128(first).get_version_num(), 4);
    assert_eq!(db.len(), 2);
    assert!(db.contains(first));
    assert_eq!(db.get(second).unwrap().name, "two");
    assert!(db.get(7).is_none());
}

#[test]
fn insert_with_id_refuses_an_identifier_in_use() {
    let mut db = fresh();
    assert!(matches!(db.insert_with_id(7, login("one", "u", "p")), Ok(7)));
    assert!(matches!(
        db.insert_with_id(7, login("two", "u", "p")),
        Err(StoreError::IdCollision)
    ));
    assert_eq!(db.len(), 1);
    assert_eq!(db.get(7).unwrap().name, "one");
}

#[test]
fn append_logins_adds_each_record_under_its_own_identifier() {
    let mut db = fresh();
    db.insert_with_id(1, login("old", "u", "p")).unwrap();
    let ids = db
        .append_logins(vec![login("a", "ua", "pa"), login("b", "ub", "pb"), login("a", "ua", "pa")])
        .unwrap();
    assert_eq!(ids.len(), 3);
    assert_eq!(db.len(), 4);
    assert_eq!(db.get(ids[0]).unwrap().name, "a");
    assert_eq!(db.get(ids[1]).unwrap().name, "b");
    assert_eq!(db.get(ids[1]).unwrap().password, "pb");
    assert_eq!(db.get(ids[2]).unwrap().username, "ua");
    assert_ne!(ids[0], ids[2]);
    assert_eq!(db.get(1).unwrap().name, "old");
    assert!(db.append_logins(Vec::new()).unwrap().is_empty());
    assert_eq!(db.len(), 4);
}

#[test]
fn remove_is_idempotent_in_effect() {
    let mut db = fresh();
    db.insert_with_id(1, login("one", "u", "p")).unwrap();
    db.insert_with_id(2, login("two", "u", "p")).unwrap();
    assert_eq!(db.remove(1).unwrap().name, "one");
    assert!(db.remove(1).is_none());
    assert!(db.remove(1).is_none());
    assert_eq!(db.len(), 1);
    assert!(db.contains(2));
}

#[test]
fn remove_selected_removes_the_chosen_record_only() {
    let mut db = fresh();
    db.insert_with_id(1, login("one", "u", "p")).unwrap();
    db.insert_with_id(2, login("two", "u", "p")).unwrap();
    let options = vec![2u128, 1u128];
    assert!(db.remove_selected(&options, None).is_none());
    assert!(db.remove_selected(&options, Some(2)).is_none());
    assert_eq!(db.len(), 2);
    assert_eq!(db.remove_selected(&options, Some(0)).unwrap().name, "two");
    assert_eq!(db.len(), 1);
    assert!(db.contains(1));
}

#[test]
fn query_without_text_returns_every_record_once() {
    let mut db = fresh();
    for id in 1..=5u128 {
        db.insert_with_id(id, login(&format!("name{id}"), "u", "p")).unwrap();
    }
    for query in [None, Some("")] {
        let found = db.query(query);
        let mut ids: Vec<u128> = found.iter().map(|entry| entry.0).collect();
        ids.sort();
        assert_eq!(ids, vec![1, 2, 3, 4, 5]);
        for (id, login) in found {
            assert_eq!(login.name, format!("name{id}"));
        }
    }
}

#[test]
fn query_on_an_empty_store_is_empty() {
    let db = fresh();
    assert!(db.query(None).is_empty());
    assert!(db.query(Some("")).is_empty());
    assert!(db.query(Some("x")).is_empty());
}

#[test]
fn query_ranks_matches_and_leaves_out_the_rest() {
    let mut db = fresh();
    db.insert_with_id(4, login("github", "u", "p")).unwrap();
    db.insert_with_id(3, login("git", "u", "p")).unwrap();
    db.insert_with_id(2, login("GIT", "u", "p")).unwrap();
    db.insert_with_id(1, login("g-i-t", "u", "p")).unwrap();
    db.insert_with_id(5, login("tig", "u", "p")).unwrap();
    let found = db.query(Some("git"));
    let ids: Vec<u128> = found.iter().map(|entry| entry.0).collect();
    assert_eq!(ids, vec![2, 3, 4, 1]);
    assert_eq!(found[2].1.name, "github");
}

#[test]
fn sync_then_open_gives_the_same_records() {
    let mut db = fresh();
    db.append_logins(vec![
        login("github", "a", "p"),
        login("", "", ""),
        login("päss wörd", "ü", "日本語"),
    ])
    .unwrap();
    let bytes = db.sync().unwrap();
    let back = Database::open("elsewhere.db", ReadOutcome::Content(bytes)).unwrap();
    assert_eq!(back.path, "elsewhere.db");
    assert_eq!(back.len(), 3);
    assert!(db.same_records(&back));
    assert!(back.same_records(&db));
}

#[test]
fn sync_writes_the_map_in_the_order_of_the_identifiers() {
    let mut db = fresh();
    db.insert_with_id(2, login("b", "", "")).unwrap();
    db.insert_with_id(1, login("a", "u", "p")).unwrap();
    let mut one = vec![0xc4, 0x10];
    one.extend_from_slice(&1u128.to_be_bytes());
    one.extend_from_slice(&[0x93, 0xa1, b'a', 0xa1, b'u', 0xa1, b'p']);
    let mut two = vec![0xc4, 0x10];
    two.extend_from_slice(&2u128.to_be_bytes());
    two.extend_from_slice(&[0x93, 0xa1, b'b', 0xa0, 0xa0]);
    let mut expected = vec![0x91, 0x82];
    expected.extend_from_slice(&one);
    expected.extend_from_slice(&two);
    assert_eq!(db.sync().unwrap(), expected);
}

#[test]
fn open_reads_what_the_encoder_writes_for_a_map_of_records() {
    let mut map: HashMap<uuid::Uuid, (String, String, String)> = HashMap::new();
    let id = uuid::Uuid::parse_str("550e8400-e29b-41d4-a716-446655440000").unwrap();
    map.insert(id, ("n".to_string(), "u".to_string(), "p".to_string()));
    let bytes = rmp_serde::to_vec(&(map,)).unwrap();
    let db = Database::from_bytes("p", &bytes).unwrap();
    assert_eq!(db.len(), 1);
    let found = db.get(id.as_u128()).unwrap();
    assert_eq!(found.name, "n");
    assert_eq!(found.username, "u");
    assert_eq!(found.password, "p");
}

#[test]
fn same_records_tells_stores_apart() {
    let mut left = fresh();
    let mut right = fresh();
    assert!(left.same_records(&right));
    left.insert_with_id(1, login("a", "u", "p")).unwrap();
    assert!(!left.same_records(&right));
    right.insert_with_id(1, login("a", "u", "other")).unwrap();
    assert!(!left.same_records(&right));
    right.remove(1);
    right.insert_with_id(2, login("a", "u", "p")).unwrap();
    assert!(!left.same_records(&right));
    right.remove(2);
    right.insert_with_id(1, login("a", "u", "p")).unwrap();
    assert!(left.same_records(&right));
}

#[test]
fn written_reports_a_failed_write() {
    assert!(Database::written(WriteOutcome::Written).is_ok());
    match Database::written(WriteOutcome::Failed("full".to_string())) {
        Err(StoreError::Io(why)) => assert_eq!(why, "full"),
        other => panic!("unexpected {:?}", other),
    }
}

#[test]
fn config_init_is_refused_where_a_file_exists() {
    assert!(Config::init(false).is_ok());
    assert_eq!(Config::init(true), Err(LocketError::ConfigAlreadyExistsError));
    assert_eq!(
        LocketError::ConfigAlreadyExistsError.message(),
        "Tried to initialise a configuration file where one already exists"
    );
    assert_eq!(
        LocketError::DatabaseAlreadyExistsError.message(),
        "Tried to initialise a database file where one already exists"
    );
}

#[test]
fn config_ports() {
    assert_eq!(DEFAULT_PORT, 56423);
    assert!(Config::check_port(DEFAULT_PORT).is_ok());
    assert!(Config::check_port(1).is_ok());
    assert!(Config::check_port(65534).is_ok());
    assert_eq!(Config::check_port(0), Err("Not a valid port number"));
    assert_eq!(Config::check_port(65535), Err("Not a valid port number"));
    let config = Config::new("a/b.db", 8080);
    assert_eq!(config.path, "a/b.db");
    assert_eq!(config.port, 8080);
}

#[test]
fn add_login_on_an_empty_store_stores_the_texts_verbatim() {
    let mut db = fresh();
    let id = db.add_login(login(" GitHub ", "", "p@ss wörd ")).unwrap();
    assert_eq!(db.len(), 1);
    let stored = db.get(id).unwrap();
    assert_eq!(stored.name, " GitHub ");
    assert_eq!(stored.username, "");
    assert_eq!(stored.password, "p@ss wörd ");
}

#[test]
fn append_with_ids_needs_new_and_distinct_identifiers() {
    let mut db = fresh();
    db.insert_with_id(1, login("old", "u", "p")).unwrap();
    assert!(matches!(
        db.append_with_ids(vec![2, 1], vec![login("a", "", ""), login("b", "", "")]),
        Err(StoreError::IdCollision)
    ));
    assert!(matches!(
        db.append_with_ids(vec![2, 2], vec![login("a", "", ""), login("b", "", "")]),
        Err(StoreError::IdCollision)
    ));
    assert!(matches!(
        db.append_with_ids(vec![2], vec![login("a", "", ""), login("b", "", "")]),
        Err(StoreError::IdCollision)
    ));
    assert_eq!(db.len(), 1);
    let ids = db
        .append_with_ids(vec![3, 2], vec![login("a", "", ""), login("b", "", "")])
        .unwrap();
    assert_eq!(ids, vec![3, 2]);
    assert_eq!(db.len(), 3);
    assert_eq!(db.get(3).unwrap().name, "a");
    assert_eq!(db.get(2).unwrap().name, "b");
    assert!(db.append_with_ids(Vec::new(), Vec::new()).unwrap().is_empty());
}

#[test]
fn sync_after_a_removal_gives_the_whole_shorter_content() {
    let mut db = fresh();
    db.insert_with_id(1, login("github", "a", "p")).unwrap();
    let longer = db.sync().unwrap();
    db.remove(1);
    let shorter = db.sync().unwrap();
    assert!(shorter.len() < longer.len());
    assert_eq!(shorter, vec![0x91, 0x80]);
    assert!(!shorter.windows(6).any(|part| part == &b"github"[..]));
}
