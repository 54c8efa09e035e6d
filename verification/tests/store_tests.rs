use passgen::database::ProfileStore;
use passgen::database::StoreError;
use passgen::generation_logic::GenerationData;

fn record(name: &str) -> GenerationData {
    GenerationData::new(None, None, None, None, None, Some(String::from(name)), None)
}

#[test]
fn retrieve_settings_nonexistent_profile_should_return_none() {
    let store = ProfileStore::open_in_memory().unwrap();
    let res = store.read("nonexistent_profile_name").unwrap();
    match res {
        None => {},
        Some(_) => {
            panic!();
        },
    }
}

#[test]
fn insert_new_profile_and_retrieve_settings() {
    let mut store = ProfileStore::open_in_memory().unwrap();
    let default_user = record("new_profile_name");
    store.create(&default_user).unwrap();
    let retrieved_profile = store.read("new_profile_name").unwrap().unwrap();
    store.delete("new_profile_name").unwrap();
    assert_eq!(retrieved_profile, default_user);
}

#[test]
fn save_then_load_round_trips_all_fields() {
    let mut store = ProfileStore::open_in_memory().unwrap();
    let saved = GenerationData::new(
        Some(17),
        Some(true),
        Some(false),
        Some(true),
        Some(false),
        Some(String::from("alice")),
        None,
    );
    store.create(&saved).unwrap();
    let loaded = store.read("alice").unwrap().unwrap();
    assert_eq!(loaded.profile, Some(String::from("alice")));
    assert_eq!(loaded.minimum_length, 17);
    assert_eq!(loaded.include_numbers, true);
    assert_eq!(loaded.include_special, false);
    assert_eq!(loaded.include_ucase, true);
    assert_eq!(loaded.use_words, false);
    assert_eq!(loaded.overwrite, false);
}

#[test]
fn duplicate_create_without_overwrite_fails_and_keeps_row() {
    let mut store = ProfileStore::open_in_memory().unwrap();
    let original = GenerationData::new(
        Some(9),
        Some(true),
        None,
        None,
        None,
        Some(String::from("bob")),
        None,
    );
    store.create(&original).unwrap();
    let imposter = GenerationData::new(
        Some(30),
        Some(false),
        Some(true),
        Some(true),
        Some(false),
        Some(String::from("bob")),
        None,
    );
    assert_eq!(store.create(&imposter), Err(StoreError::DuplicateName));
    let kept = store.read("bob").unwrap().unwrap();
    assert_eq!(kept.minimum_length, 9);
    assert_eq!(kept.include_numbers, true);
    assert_eq!(kept.include_special, false);
}

#[test]
fn overwrite_instruction_replaces_the_row() {
    let mut store = ProfileStore::open_in_memory().unwrap();
    store.create(&record("carol")).unwrap();
    let replacement = GenerationData::new(
        Some(24),
        Some(true),
        Some(true),
        Some(true),
        Some(false),
        Some(String::from("carol")),
        Some(true),
    );
    store.create(&replacement).unwrap();
    let kept = store.read("carol").unwrap().unwrap();
    assert_eq!(kept.minimum_length, 24);
    assert_eq!(kept.use_words, false);
    assert_eq!(kept.overwrite, false);
}

#[test]
fn list_is_empty_then_keeps_insertion_order() {
    let mut store = ProfileStore::open_in_memory().unwrap();
    assert_eq!(store.list().unwrap(), Vec::<String>::new());
    store.create(&record("a")).unwrap();
    store.create(&record("b")).unwrap();
    assert_eq!(store.list().unwrap(), vec![String::from("a"), String::from("b")]);
}

#[test]
fn open_on_an_unusable_path_reports_a_storage_error() {
    // A directory can never be opened as a database file.
    assert_eq!(ProfileStore::open(".").err(), Some(StoreError::Storage));
}

#[test]
fn delete_absent_profile_reports_not_found() {
    let mut store = ProfileStore::open_in_memory().unwrap();
    assert_eq!(store.delete("nobody"), Err(StoreError::NotFound));
    store.create(&record("dave")).unwrap();
    assert_eq!(store.delete("dave"), Ok(()));
    assert_eq!(store.read("dave").unwrap(), None);
}
