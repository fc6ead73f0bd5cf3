use std::cmp::Ordering;
use str_utils::cmp::{order_ai, order_ai_ci, order_ci, to_ordering, lower_each, EqExt, OrdExt};
use str_utils::text::Order;

#[test]
fn char_eq_ai_works() {
    assert!('a'.eq_ai('à'));
    assert!('ä'.eq_ai('a'));
    assert!('a'.eq_ai('a'));
    assert!(!'a'.eq_ai('b'));
    assert!(!'a'.eq_ai('A'));
}

#[test]
fn char_eq_ai_ci_works() {
    assert!('a'.eq_ai_ci('à'));
    assert!('a'.eq_ai_ci('À'));
    assert!('A'.eq_ai_ci('À'));
    assert!('à'.eq_ai_ci('à'));
    assert!('À'.eq_ai_ci('a'));
    assert!(!'a'.eq_ai_ci('b'));
}

#[test]
fn char_eq_ci_works() {
    assert!('a'.eq_ci('a'));
    assert!('A'.eq_ci('a'));
    assert!('a'.eq_ci('A'));
    assert!(!'a'.eq_ci('b'));
}

#[test]
fn str_eq_ai_works() {
    assert!("abc".eq_ai("àbc"));
    assert!(!"abc".eq_ai("abca"));
}

#[test]
fn str_eq_ai_ci_works() {
    assert!("abc".eq_ai_ci("ÀBc"));
    assert!(!"abc".eq_ai_ci("abca"));
}

#[test]
fn str_eq_ci_works() {
    assert!("abc".eq_ci("ABC"));
    assert!(!"abc".eq_ci("abca"));
}

#[test]
fn string_equality_examples() {
    assert!("Café".eq_ai("Cafe"));
    assert!("Café".eq_ai_ci("cafe"));
    assert!("street".eq_ci("Street"));
    assert!(!"abca".eq_ci("abc"));
    assert!(!"Café".eq_ci("Cafe"));
    assert!("".eq_ci(""));
    assert!(!"".eq_ai("a"));
    assert!("abc".to_owned().eq_ci("ABC"));
    assert!("abc".to_owned().eq_ai("àbc"));
    assert!("abc".to_owned().eq_ai_ci("ÀBC"));
}

#[test]
fn char_eq_ci_is_symmetric() {
    let chars = ['a', 'A', 'é', 'É', 'ß', 'İ', 'i', '1', ' '];
    for a in chars {
        for b in chars {
            assert_eq!(a.eq_ci(b), b.eq_ci(a), "{:?} {:?}", a, b);
        }
    }
}

#[test]
fn equality_agrees_with_order() {
    let words = ["", "a", "A", "abc", "ABC", "àbc", "Àbc", "abca", "b", "Café", "cafe"];
    for s in words {
        for t in words {
            assert_eq!(s.eq_ci(t), s.cmp_ci(t) == Ordering::Equal, "ci {:?} {:?}", s, t);
            assert_eq!(s.eq_ai(t), s.cmp_ai(t) == Ordering::Equal, "ai {:?} {:?}", s, t);
            assert_eq!(s.eq_ai_ci(t), s.cmp_ai_ci(t) == Ordering::Equal, "ai_ci {:?} {:?}", s, t);
        }
    }
}

#[test]
fn ordering_examples() {
    assert_eq!("abc".cmp_ai("àbc"), Ordering::Equal);
    assert_eq!("é".cmp_ai("e"), Ordering::Equal);
    assert_eq!("abc".cmp_ai_ci("Àbc"), Ordering::Equal);
    assert_eq!("é".cmp_ai_ci("E"), Ordering::Equal);
    assert_eq!("abc".cmp_ci("Abc"), Ordering::Equal);
    assert_eq!("e".cmp_ci("E"), Ordering::Equal);
    assert_eq!("abc".cmp_ci("ABD"), Ordering::Less);
    assert_eq!("abd".cmp_ci("ABC"), Ordering::Greater);
    assert_eq!("ab".cmp_ci("ABC"), Ordering::Less);
    assert_eq!("abc".cmp_ci("AB"), Ordering::Greater);
    assert_eq!("".cmp_ai(""), Ordering::Equal);
    assert_eq!("a".cmp_ai("B"), Ordering::Greater);
    assert_eq!("a".cmp_ai_ci("B"), Ordering::Less);
    assert_eq!("abc".to_owned().cmp_ci("ABC"), Ordering::Equal);
    assert_eq!("abc".to_owned().cmp_ai("àbd"), Ordering::Less);
    assert_eq!("abd".to_owned().cmp_ai_ci("ÀBC"), Ordering::Greater);
}

#[test]
fn char_ordering_examples() {
    assert_eq!('é'.cmp_ai('e'), Ordering::Equal);
    assert_eq!('é'.cmp_ai('f'), Ordering::Less);
    assert_eq!('É'.cmp_ai_ci('e'), Ordering::Equal);
    assert_eq!('A'.cmp_ci('a'), Ordering::Equal);
    assert_eq!('B'.cmp_ci('a'), Ordering::Greater);
    assert_eq!(order_ai('a', 'b'), Order::Less);
    assert_eq!(order_ai_ci('B', 'a'), Order::Greater);
    assert_eq!(order_ci('Z', 'z'), Order::Equal);
}

#[test]
fn order_converts_to_ordering() {
    assert_eq!(to_ordering(Order::Less), Ordering::Less);
    assert_eq!(to_ordering(Order::Equal), Ordering::Equal);
    assert_eq!(to_ordering(Order::Greater), Ordering::Greater);
}

#[test]
fn lower_each_lowers_every_character() {
    assert_eq!(lower_each(&['A', 'b', 'É']), vec!['a', 'b', 'é']);
    assert_eq!(lower_each(&[]), Vec::<char>::new());
}

#[test]
fn order_reverses_when_exchanged() {
    let words = ["", "a", "A", "abc", "ABD", "àbc", "abca", "b", "Café", "cafe"];
    for s in words {
        for t in words {
            assert_eq!(s.cmp_ci(t), t.cmp_ci(s).reverse(), "ci {:?} {:?}", s, t);
            assert_eq!(s.cmp_ai(t), t.cmp_ai(s).reverse(), "ai {:?} {:?}", s, t);
            assert_eq!(s.cmp_ai_ci(t), t.cmp_ai_ci(s).reverse(), "ai_ci {:?} {:?}", s, t);
        }
    }
}
