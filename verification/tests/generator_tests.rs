use password_generator::generator::{GenerateError, PasswordGenerator};
use password_generator::utils::{CharClass, GeneratorFlag};

const LOWER: &str = "abcdefghijklmnopqrstuvwxyz";
const UPPER: &str = "ABCDEFGHIJKLMNOPQRSTUVWXYZ";
const DIGITS: &str = "0123456789";
const SPECIALS: &str = "!@#$%^&*()_+-=[]{}|;:',.<>?/";

fn generator(length: usize, classes: &[CharClass], excluded: &str) -> PasswordGenerator {
    let mut g = PasswordGenerator::new();
    g.set_length(length);
    g.set_excluded_character_set(excluded.to_string());
    g.set_char_classes(classes.to_vec());
    g
}

#[test]
fn new_has_documented_defaults() {
    let g = PasswordGenerator::new();
    assert_eq!(g.length, 12);
    assert_eq!(g.excluded_character_set, "");
    assert!(g.char_classes.is_empty());
    assert_eq!(g.flag, GeneratorFlag::NoFlags);
}

#[test]
fn setters_store_the_configuration() {
    let g = generator(20, &[CharClass::Numbers, CharClass::UpperLetters], "05");
    assert_eq!(g.length, 20);
    assert_eq!(g.excluded_character_set, "05");
    assert_eq!(
        g.char_classes,
        vec![CharClass::Numbers, CharClass::UpperLetters]
    );
}

#[test]
fn validity_needs_a_class_and_a_positive_length() {
    assert!(!PasswordGenerator::new().is_valid());
    assert!(generator(8, &[CharClass::Numbers], "").is_valid());
    assert!(!generator(0, &[CharClass::Numbers], "").is_valid());
    assert!(!generator(8, &[CharClass::NoClass], "").is_valid());
}

#[test]
fn pool_concatenates_selected_classes_in_fixed_order() {
    let g = generator(8, &[CharClass::UpperLetters, CharClass::LowerLetters], "");
    let mut expected = String::new();
    expected.push_str(LOWER);
    expected.push_str(UPPER);
    assert_eq!(g.build_pool(), expected);
}

#[test]
fn pool_drops_excluded_characters() {
    let g = generator(8, &[CharClass::LowerLetters], "abcxyz");
    assert_eq!(g.build_pool(), "defghijklmnopqrstuvw");
}

#[test]
fn pool_of_all_classes_holds_every_alphabet() {
    let g = generator(
        8,
        &[
            CharClass::LowerLetters,
            CharClass::UpperLetters,
            CharClass::Numbers,
            CharClass::SpecialCharacters,
        ],
        "",
    );
    let mut expected = String::new();
    expected.push_str(LOWER);
    expected.push_str(UPPER);
    expected.push_str(DIGITS);
    expected.push_str(SPECIALS);
    assert_eq!(g.build_pool(), expected);
}

#[test]
fn generated_password_has_the_requested_length() {
    for length in [1usize, 2, 12, 100] {
        let g = generator(length, &[CharClass::LowerLetters, CharClass::Numbers], "");
        let p = g.generate_password().expect("valid configuration");
        assert_eq!(p.chars().count(), length);
    }
}

#[test]
fn generated_characters_come_from_the_pool() {
    let g = generator(200, &[CharClass::LowerLetters, CharClass::Numbers], "aeiou");
    let p = g.generate_password().expect("valid configuration");
    assert_eq!(p.chars().count(), 200);
    for c in p.chars() {
        assert!(
            (LOWER.contains(c) || DIGITS.contains(c)) && !"aeiou".contains(c),
            "character {c:?} is outside the configured pool"
        );
    }
}

#[test]
fn excluding_every_candidate_fails_with_empty_pool() {
    let g = generator(100, &[CharClass::Numbers], DIGITS);
    assert_eq!(g.generate_password(), Err(GenerateError::EmptyPool));
}

#[test]
fn missing_classes_fail_with_invalid_configuration() {
    let g = generator(12, &[], "");
    assert_eq!(g.generate_password(), Err(GenerateError::InvalidConfiguration));
}

#[test]
fn zero_length_fails_with_invalid_configuration() {
    let g = generator(0, &[CharClass::Numbers], "");
    assert_eq!(g.generate_password(), Err(GenerateError::InvalidConfiguration));
}

#[test]
fn only_the_sentinel_class_fails_with_invalid_configuration() {
    let g = generator(12, &[CharClass::NoClass], "");
    assert_eq!(g.generate_password(), Err(GenerateError::InvalidConfiguration));
}

#[test]
fn a_single_candidate_pool_yields_a_constant_password() {
    let g = generator(4, &[CharClass::Numbers], "123456789");
    assert_eq!(g.generate_password(), Ok("0000".to_string()));
}

#[test]
fn one_per_group_flag_adds_one_char_per_selected_class() {
    let mut g = generator(10, &[CharClass::LowerLetters, CharClass::UpperLetters], "");
    g.set_flag(GeneratorFlag::CharFromEveryGroup);
    let p = g.generate_password().expect("valid configuration");
    assert_eq!(p.chars().count(), 12);
    for c in p.chars() {
        assert!(LOWER.contains(c) || UPPER.contains(c));
    }
}

#[test]
fn one_per_group_flag_skips_groups_emptied_by_exclusion() {
    let mut g = generator(6, &[CharClass::LowerLetters, CharClass::Numbers], DIGITS);
    g.set_flag(GeneratorFlag::CharFromEveryGroup);
    let p = g.generate_password().expect("valid configuration");
    assert_eq!(p.chars().count(), 7);
    for c in p.chars() {
        assert!(LOWER.contains(c));
    }
}

#[test]
fn one_per_group_flag_covers_every_selected_class() {
    for _ in 0..20 {
        let mut g = generator(1, &[CharClass::UpperLetters, CharClass::Numbers], "");
        g.set_flag(GeneratorFlag::CharFromEveryGroup);
        let p = g.generate_password().expect("valid configuration");
        assert_eq!(p.chars().count(), 3);
        assert!(p.chars().any(|c| UPPER.contains(c)));
        assert!(p.chars().any(|c| DIGITS.contains(c)));
    }
}

#[test]
fn example_config_yields_twelve_chars_over_the_reduced_alphabet() {
    let g = generator(12, &[CharClass::LowerLetters, CharClass::Numbers], "aeiou");
    let p = g.generate_password().expect("valid configuration");
    assert_eq!(p.chars().count(), 12);
    let alphabet = "bcdfghjklmnpqrstvwxyz0123456789";
    for c in p.chars() {
        assert!(alphabet.contains(c), "character {c:?} is outside the expected alphabet");
    }
}
