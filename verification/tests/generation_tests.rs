use passgen::generation_logic::generate_lcase_char;
use passgen::generation_logic::generate_numeric_char;
use passgen::generation_logic::generate_special_char;
use passgen::generation_logic::generate_ucase_char;
use passgen::generation_logic::GenerationData;
use passgen::text::parse_bool;
use passgen::text::parse_usize;
use passgen::text::str_eq;

#[test]
fn sampled_characters_stay_in_their_classes() {
    for _ in 0..50 {
        let c = generate_lcase_char();
        assert!(c.is_ascii_lowercase());
        let c = generate_ucase_char();
        assert!(c.is_ascii_uppercase());
        let c = generate_numeric_char();
        assert!(c.is_ascii_digit());
        let c = generate_special_char();
        assert!(('!'..='~').contains(&c));
    }
}

#[test]
fn defaults_from_new_with_all_fields_absent() {
    let rec = GenerationData::new(None, None, None, None, None, None, None);
    assert_eq!(rec.minimum_length, 8);
    assert_eq!(rec.include_numbers, false);
    assert_eq!(rec.include_special, false);
    assert_eq!(rec.include_ucase, false);
    assert_eq!(rec.use_words, true);
    assert_eq!(rec.profile, None);
    assert_eq!(rec.overwrite, false);
}

#[test]
fn new_keeps_every_supplied_field() {
    let rec = GenerationData::new(
        Some(14),
        Some(true),
        Some(true),
        Some(false),
        Some(false),
        Some(String::from("kate")),
        Some(true),
    );
    assert_eq!(rec.minimum_length, 14);
    assert_eq!(rec.include_numbers, true);
    assert_eq!(rec.include_special, true);
    assert_eq!(rec.include_ucase, false);
    assert_eq!(rec.use_words, false);
    assert_eq!(rec.profile, Some(String::from("kate")));
    assert_eq!(rec.overwrite, true);
}

#[test]
fn password_from_words_reaches_the_minimum_length() {
    let rec = GenerationData::new(Some(20), None, None, None, Some(true), None, None);
    let password = rec.generate_password();
    assert!(password.chars().count() >= 20);
}

#[test]
fn password_from_letters_is_lowercase_core_plus_extras() {
    let rec = GenerationData::new(
        Some(10),
        Some(true),
        Some(true),
        Some(true),
        Some(false),
        None,
        None,
    );
    let password = rec.generate_password();
    let chars: Vec<char> = password.chars().collect();
    assert_eq!(chars.len(), 13);
    for i in 0..10 {
        assert!(chars[i].is_ascii_lowercase());
    }
    assert!(chars[10].is_ascii_digit());
    assert!(('!'..='~').contains(&chars[11]));
    assert!(chars[12].is_ascii_uppercase());
}

#[test]
fn password_without_extras_is_exactly_the_core() {
    let rec = GenerationData::new(Some(6), None, None, None, Some(false), None, None);
    let password = rec.generate_password();
    assert_eq!(password.chars().count(), 6);
    assert!(password.chars().all(|c| c.is_ascii_lowercase()));
}

#[test]
fn parse_usize_accepts_digits_and_an_optional_plus_sign() {
    assert_eq!(parse_usize("0"), Some(0));
    assert_eq!(parse_usize("8"), Some(8));
    assert_eq!(parse_usize("008"), Some(8));
    assert_eq!(parse_usize("+8"), Some(8));
    assert_eq!(parse_usize("18446744073709551615"), Some(usize::MAX));
    assert_eq!(parse_usize("18446744073709551616"), None);
    assert_eq!(parse_usize(""), None);
    assert_eq!(parse_usize("+"), None);
    assert_eq!(parse_usize("8a"), None);
    assert_eq!(parse_usize("-8"), None);
    assert_eq!(parse_usize(" 8"), None);
}

#[test]
fn parse_bool_accepts_exactly_true_and_false() {
    assert_eq!(parse_bool("true"), Some(true));
    assert_eq!(parse_bool("false"), Some(false));
    assert_eq!(parse_bool("TRUE"), None);
    assert_eq!(parse_bool("1"), None);
    assert_eq!(parse_bool(""), None);
}

#[test]
fn str_eq_compares_by_characters() {
    assert!(str_eq("", ""));
    assert!(str_eq("abc", "abc"));
    assert!(!str_eq("abc", "abd"));
    assert!(!str_eq("abc", "ab"));
    assert!(!str_eq("ab", "abc"));
}
