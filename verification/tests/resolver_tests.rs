use passgen::cli::parse_args;
use passgen::database::ProfileStore;
use passgen::generation_logic::GenerationData;
use passgen::resolver::resolve;
use passgen::resolver::EnvSnapshot;
use passgen::resolver::ResolveError;
use passgen::resolver::SaveStatus;

fn no_env() -> EnvSnapshot {
    EnvSnapshot {
        min_length: None,
        include_numbers: None,
        include_special: None,
        include_ucase: None,
        use_words: None,
    }
}

#[test]
fn no_options_and_no_env_gives_documented_defaults() {
    let mut store = ProfileStore::open_in_memory().unwrap();
    let (rec, status) = resolve(&Vec::new(), &no_env(), &mut store).unwrap();
    assert_eq!(rec.minimum_length, 8);
    assert_eq!(rec.include_numbers, false);
    assert_eq!(rec.include_special, false);
    assert_eq!(rec.include_ucase, false);
    assert_eq!(rec.use_words, true);
    assert_eq!(rec.profile, None);
    assert_eq!(rec.overwrite, false);
    assert_eq!(status, SaveStatus::NotRequested);
}

#[test]
fn environment_layer_overrides_defaults_field_by_field() {
    let mut store = ProfileStore::open_in_memory().unwrap();
    let env = EnvSnapshot {
        min_length: Some(String::from("12")),
        include_numbers: Some(String::from("true")),
        include_special: None,
        include_ucase: Some(String::from("not-a-bool")),
        use_words: Some(String::from("false")),
    };
    let (rec, _) = resolve(&Vec::new(), &env, &mut store).unwrap();
    assert_eq!(rec.minimum_length, 12);
    assert_eq!(rec.include_numbers, true);
    assert_eq!(rec.include_special, false);
    assert_eq!(rec.include_ucase, false);
    assert_eq!(rec.use_words, false);
}

#[test]
fn invalid_environment_value_falls_back_silently() {
    let mut store = ProfileStore::open_in_memory().unwrap();
    let env = EnvSnapshot {
        min_length: Some(String::from("eight")),
        include_numbers: Some(String::from("TRUE")),
        include_special: None,
        include_ucase: None,
        use_words: None,
    };
    let (rec, _) = resolve(&Vec::new(), &env, &mut store).unwrap();
    assert_eq!(rec.minimum_length, 8);
    assert_eq!(rec.include_numbers, false);
}

#[test]
fn explicit_options_override_environment_and_defaults() {
    let mut store = ProfileStore::open_in_memory().unwrap();
    let env = EnvSnapshot {
        min_length: Some(String::from("12")),
        include_numbers: None,
        include_special: None,
        include_ucase: None,
        use_words: None,
    };
    let options = parse_args(vec![
        String::from("--minlength"),
        String::from("20"),
        String::from("--include_spec"),
        String::from("true"),
        String::from("--use_dict_words"),
        String::from("false"),
    ]);
    let (rec, _) = resolve(&options, &env, &mut store).unwrap();
    assert_eq!(rec.minimum_length, 20);
    assert_eq!(rec.include_special, true);
    assert_eq!(rec.use_words, false);
    assert_eq!(rec.include_numbers, false);
}

#[test]
fn minimum_length_zero_from_the_flag_is_an_invalid_field_value() {
    let mut store = ProfileStore::open_in_memory().unwrap();
    let options = parse_args(vec![String::from("--minlength"), String::from("0")]);
    let (rec, _) = resolve(&options, &no_env(), &mut store).unwrap();
    assert_eq!(rec.minimum_length, 8);

    let env = EnvSnapshot {
        min_length: Some(String::from("12")),
        include_numbers: None,
        include_special: None,
        include_ucase: None,
        use_words: None,
    };
    let (rec, _) = resolve(&options, &env, &mut store).unwrap();
    assert_eq!(rec.minimum_length, 12);
}

#[test]
fn minimum_length_zero_keeps_the_prior_explicit_value() {
    let mut store = ProfileStore::open_in_memory().unwrap();
    let options = parse_args(vec![
        String::from("--minlength"),
        String::from("12"),
        String::from("--minlength"),
        String::from("0"),
    ]);
    let (rec, _) = resolve(&options, &no_env(), &mut store).unwrap();
    assert_eq!(rec.minimum_length, 12);
}

#[test]
fn minimum_length_zero_from_the_environment_is_ignored() {
    let mut store = ProfileStore::open_in_memory().unwrap();
    let env = EnvSnapshot {
        min_length: Some(String::from("0")),
        include_numbers: None,
        include_special: None,
        include_ucase: None,
        use_words: None,
    };
    let (rec, _) = resolve(&Vec::new(), &env, &mut store).unwrap();
    assert_eq!(rec.minimum_length, 8);
}

#[test]
fn repeated_option_last_occurrence_wins() {
    let mut store = ProfileStore::open_in_memory().unwrap();
    let options = parse_args(vec![
        String::from("--minlength"),
        String::from("20"),
        String::from("--minlength"),
        String::from("31"),
    ]);
    let (rec, _) = resolve(&options, &no_env(), &mut store).unwrap();
    assert_eq!(rec.minimum_length, 31);
}

#[test]
fn save_path_persists_under_the_requested_name() {
    let mut store = ProfileStore::open_in_memory().unwrap();
    let options = parse_args(vec![
        String::from("--minlength"),
        String::from("15"),
        String::from("--new_profile"),
        String::from("erin"),
    ]);
    let (rec, status) = resolve(&options, &no_env(), &mut store).unwrap();
    assert_eq!(status, SaveStatus::Saved);
    assert_eq!(rec.profile, Some(String::from("erin")));
    let stored = store.read("erin").unwrap().unwrap();
    assert_eq!(stored.minimum_length, 15);
    assert_eq!(stored.profile, Some(String::from("erin")));
}

#[test]
fn save_path_reports_duplicate_but_still_resolves() {
    let mut store = ProfileStore::open_in_memory().unwrap();
    let first = GenerationData::new(Some(9), None, None, None, None, Some(String::from("fred")), None);
    store.create(&first).unwrap();
    let options = parse_args(vec![
        String::from("--minlength"),
        String::from("22"),
        String::from("--new_profile"),
        String::from("fred"),
    ]);
    let (rec, status) = resolve(&options, &no_env(), &mut store).unwrap();
    assert_eq!(status, SaveStatus::DuplicateName);
    assert_eq!(rec.minimum_length, 22);
    assert_eq!(store.read("fred").unwrap().unwrap().minimum_length, 9);
}

#[test]
fn save_path_with_overwrite_replaces() {
    let mut store = ProfileStore::open_in_memory().unwrap();
    let first = GenerationData::new(Some(9), None, None, None, None, Some(String::from("gail")), None);
    store.create(&first).unwrap();
    let options = parse_args(vec![
        String::from("--minlength"),
        String::from("22"),
        String::from("--overwrite"),
        String::from("true"),
        String::from("--new_profile"),
        String::from("gail"),
    ]);
    let (_, status) = resolve(&options, &no_env(), &mut store).unwrap();
    assert_eq!(status, SaveStatus::Saved);
    assert_eq!(store.read("gail").unwrap().unwrap().minimum_length, 22);
}

#[test]
fn load_path_returns_stored_record_verbatim() {
    let mut store = ProfileStore::open_in_memory().unwrap();
    let saved = GenerationData::new(
        Some(19),
        Some(true),
        Some(true),
        Some(false),
        Some(false),
        Some(String::from("hank")),
        None,
    );
    store.create(&saved).unwrap();
    let env = EnvSnapshot {
        min_length: Some(String::from("44")),
        include_numbers: None,
        include_special: None,
        include_ucase: None,
        use_words: None,
    };
    let options = parse_args(vec![
        String::from("--minlength"),
        String::from("3"),
        String::from("--profile"),
        String::from("hank"),
    ]);
    let (rec, status) = resolve(&options, &env, &mut store).unwrap();
    assert_eq!(status, SaveStatus::NotRequested);
    assert_eq!(rec.minimum_length, 19);
    assert_eq!(rec.include_numbers, true);
    assert_eq!(rec.include_special, true);
    assert_eq!(rec.include_ucase, false);
    assert_eq!(rec.use_words, false);
    assert_eq!(rec.profile, Some(String::from("hank")));
}

#[test]
fn loading_nonexistent_profile_is_an_error_not_a_fallback() {
    let mut store = ProfileStore::open_in_memory().unwrap();
    let options = parse_args(vec![String::from("--profile"), String::from("nobody")]);
    let res = resolve(&options, &no_env(), &mut store);
    assert_eq!(res, Err(ResolveError::ProfileNotFound));
}

#[test]
fn load_and_save_together_are_rejected() {
    let mut store = ProfileStore::open_in_memory().unwrap();
    store.create(&GenerationData::new(
        None,
        None,
        None,
        None,
        None,
        Some(String::from("iris")),
        None,
    ))
    .unwrap();
    let options = parse_args(vec![
        String::from("--profile"),
        String::from("iris"),
        String::from("--new_profile"),
        String::from("jane"),
    ]);
    let res = resolve(&options, &no_env(), &mut store);
    assert_eq!(res, Err(ResolveError::ConflictingProfileOptions));
    assert_eq!(store.read("jane").unwrap(), None);
}
