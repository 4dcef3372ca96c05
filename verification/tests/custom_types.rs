use lang_basics::custom_types::{is_big, language, Pair, Person, THRESHOLD};
use lang_basics::functions::{add_with_return, checked_add_i64};

#[test]
fn threshold_and_language_are_fixed() {
    assert_eq!(THRESHOLD, 10);
    assert_eq!(language(), "Rust");
}

#[test]
fn is_big_compares_against_threshold() {
    assert!(is_big(16));
    assert!(is_big(11));
    assert!(!is_big(10));
    assert!(!is_big(9));
    assert!(!is_big(-3));
}

#[test]
fn person_holds_its_fields() {
    let sten = Person::new(String::from("sten"), 10);
    assert_eq!(sten.name, "sten");
    assert_eq!(sten.age, 10);
}

#[test]
fn pair_holds_its_components() {
    let p = Pair::new(1, 'a');
    assert_eq!(p.0, 1);
    assert_eq!(p.1, 'a');
    assert_eq!(p, Pair::new(1, 'a'));
}

#[test]
fn add_with_return_adds() {
    assert_eq!(add_with_return(10, 11), 21);
    assert_eq!(add_with_return(-5, 5), 0);
}

#[test]
fn checked_add_i64_reports_overflow() {
    assert_eq!(checked_add_i64(2, 3), Some(5));
    assert_eq!(checked_add_i64(1, 10), Some(11));
    assert_eq!(checked_add_i64(i64::MAX, 1), None);
    assert_eq!(checked_add_i64(i64::MIN, -1), None);
}
