use std::cmp::Ordering;
use str_utils::char_map::Lower;

#[test]
fn lower_test_lower() {
    assert_eq!(Lower::from("AbC"), Lower::from("abc"));
    assert_eq!(Lower::from("AbC"), "abc");
}

#[test]
fn lower_orders_by_lowercase() {
    assert_eq!(Lower::from("ABC").cmp(&Lower::from("abd")), Ordering::Less);
    assert_eq!(Lower::from("b").cmp(&Lower::from("A")), Ordering::Greater);
    assert_eq!(Lower::from("Ab").cmp(&Lower::from("aB")), Ordering::Equal);
    assert_eq!(Lower::from("a").partial_cmp(&Lower::from("AB")), Some(Ordering::Less));
    assert!(Lower::from("a") != Lower::from("b"));
}

#[test]
fn lower_iter_expands_one_to_many() {
    // The capital I with a dot above lowers to two characters.
    assert_eq!(Lower::from("İ").iter(), vec!['i', '\u{307}']);
    assert_eq!(Lower::new("AbC").as_str(), "AbC");
    assert_eq!(Lower::new("AbC").clone().as_str(), "AbC");
}

#[test]
fn lower_against_plain_strings() {
    assert!(Lower::from("AbC") == *"aBc");
    assert!(Lower::from("AbC") != "abd");
    assert!(Lower::from("AbC").eq_str("ABC"));
    assert_eq!(Lower::from("AbC").cmp_str("abd"), Ordering::Less);
    assert_eq!(Lower::from("B").partial_cmp(&"a"), Some(Ordering::Greater));
    assert_eq!(Lower::from("B").partial_cmp("b"), Some(Ordering::Equal));
    assert!(Lower::from("A") < "b");
}
