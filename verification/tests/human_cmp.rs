use std::cmp::Ordering;
use str_utils::char_map::{human_cmp, human_cmp_with, FoldTable};
use str_utils::char_map::human_cmp::{human_order_chars, trim_zeros, Iter, WordOrNumber};
use str_utils::text::{chars_of, Order};

#[test]
fn test_human_cmp() {
    assert_eq!(human_cmp("", "1"), Ordering::Less);
    assert_eq!(human_cmp("1", ""), Ordering::Greater);
    assert_eq!(human_cmp("10", "1"), Ordering::Greater);
    assert_eq!(human_cmp("010", "1"), Ordering::Greater);
    assert_eq!(human_cmp("-010", "1"), Ordering::Less);
    assert_eq!(human_cmp("a", "b"), Ordering::Less);
    assert_eq!(human_cmp("a1ac1", ""), Ordering::Greater);
    assert_eq!(human_cmp("1aa1aaaaa", "1aa1aaaaa"), Ordering::Equal);

    assert_eq!(
        human_cmp("Radka Vlá?elová", "Radka Vlá?elová"),
        Ordering::Equal
    );

    assert_eq!(human_cmp("4é", "4e"), Ordering::Equal);
    assert_eq!(human_cmp("4ç", "4c"), Ordering::Equal);
    assert_eq!(human_cmp("4Ç", "4C"), Ordering::Equal);
}

#[test]
fn human_cmp_orders_numbers_by_magnitude() {
    assert_eq!(human_cmp("1", "10"), Ordering::Less);
    assert_eq!(human_cmp("10", "010"), Ordering::Equal);
    assert_eq!(human_cmp("item2", "item10"), Ordering::Less);
    assert_eq!(human_cmp("item10", "item2"), Ordering::Greater);
    assert_eq!(human_cmp("9", "10"), Ordering::Less);
    assert_eq!(human_cmp("19", "21"), Ordering::Less);
    assert_eq!(human_cmp("000", "0"), Ordering::Equal);
}

#[test]
fn human_cmp_empty_strings() {
    assert_eq!(human_cmp("", ""), Ordering::Equal);
    assert_eq!(human_cmp("", "a"), Ordering::Less);
    assert_eq!(human_cmp("a", ""), Ordering::Greater);
}

#[test]
fn human_cmp_shorter_token_sequence_first() {
    assert_eq!(human_cmp("a1", "a1b"), Ordering::Less);
    assert_eq!(human_cmp("a1b", "a1"), Ordering::Greater);
}

#[test]
fn human_cmp_number_against_text_by_characters() {
    assert_eq!(human_cmp("1", "a"), Ordering::Less);
    assert_eq!(human_cmp("a", "1"), Ordering::Greater);
    assert_eq!(human_cmp("1", "-"), Ordering::Greater);
}

#[test]
fn human_cmp_sorts_file_names() {
    let mut names = vec!["item10.txt", "item2.txt", "Item1.txt"];
    names.sort_by(|a, b| human_cmp(a, b));
    assert_eq!(names, vec!["Item1.txt", "item2.txt", "item10.txt"]);
}

#[test]
fn human_cmp_tokens_break_on_unicode_numerals() {
    // An Arabic-Indic digit is numeric, so it starts a token of its own.
    assert_eq!(human_cmp("a٣", "a٣"), Ordering::Equal);
    assert_eq!(human_cmp("a٣", "a"), Ordering::Greater);
}

#[test]
fn human_cmp_numbers_by_size_in_bytes() {
    // An Arabic-Indic three takes two bytes, as "12" does, and comes after
    // it character by character; "123" takes three bytes.
    assert_eq!(human_cmp("٣", "12"), Ordering::Greater);
    assert_eq!(human_cmp("٣", "123"), Ordering::Less);
    assert_eq!(human_cmp("12", "٣"), Ordering::Less);
}

#[test]
fn tokenizer_cuts_runs() {
    let chars = chars_of("ab12c");
    let mut it = Iter::new(chars.as_slice());
    match it.next() {
        Some(WordOrNumber::Other(s)) => assert_eq!(s, &['a', 'b'][..]),
        _ => panic!("expected a run of text"),
    }
    match it.next() {
        Some(WordOrNumber::Number(s)) => assert_eq!(s, &['1', '2'][..]),
        _ => panic!("expected a run of digits"),
    }
    match it.next() {
        Some(WordOrNumber::Other(s)) => assert_eq!(s, &['c'][..]),
        _ => panic!("expected a run of text"),
    }
    assert!(it.next().is_none());
    assert!(it.next().is_none());
}

#[test]
fn take_while_reports_where_it_stopped() {
    let chars = chars_of("12ab");
    let mut it = Iter::new(chars.as_slice());
    assert_eq!(it.take_while(true), Some(2));
    assert_eq!(it.take_while(false), None);
}

#[test]
fn token_equality_and_order() {
    let a = ['0', '1', '0'];
    let b = ['1', '0'];
    let c = ['9'];
    assert!(WordOrNumber::Number(&a).same(&WordOrNumber::Number(&b)));
    assert!(!WordOrNumber::Number(&a).same(&WordOrNumber::Other(&b)));
    assert_eq!(WordOrNumber::Number(&a).order(&WordOrNumber::Number(&c)), Order::Greater);
    assert_eq!(WordOrNumber::Number(&c).order(&WordOrNumber::Number(&b)), Order::Less);
    let e1 = ['É'];
    let e2 = ['e'];
    assert!(WordOrNumber::Other(&e1).same(&WordOrNumber::Other(&e2)));
    assert_eq!(WordOrNumber::Other(&e1).order(&WordOrNumber::Other(&e2)), Order::Equal);
}

#[test]
fn trim_zeros_removes_only_leading_zeros() {
    assert_eq!(trim_zeros(&['0', '0', '1', '0']), &['1', '0'][..]);
    assert_eq!(trim_zeros(&['0', '0']), &[][..]);
    assert_eq!(trim_zeros(&['a', '0']), &['a', '0'][..]);
}

#[test]
fn human_order_chars_matches_human_cmp() {
    let a = chars_of("x2");
    let b = chars_of("x10");
    assert_eq!(human_order_chars(a.as_slice(), b.as_slice()), Order::Less);
}

#[test]
fn human_cmp_with_a_table_agrees() {
    let table = FoldTable::build(0x100);
    let words = ["", "1", "10", "010", "-010", "a", "b", "a1ac1", "4é", "4e", "4Ç", "4C", "Ωmega", "ωMEGA"];
    for a in words {
        for b in words {
            assert_eq!(human_cmp_with(&table, a, b), human_cmp(a, b), "{:?} {:?}", a, b);
        }
    }
    assert_eq!(human_cmp_with(&table, "4Ç", "4C"), Ordering::Equal);
    assert_eq!(human_cmp_with(&table, "Ωmega", "ωMEGA"), Ordering::Equal);
    assert_eq!(human_cmp_with(&table, "item2", "item10"), Ordering::Less);
    assert_eq!(table.fold_chars(&['À', 'b', 'Ω']), vec!['a', 'b', 'ω']);
}
