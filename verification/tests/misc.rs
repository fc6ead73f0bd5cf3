use std::borrow::Cow;
use str_utils::form_str::formats::Trim;
use str_utils::form_str::FormStr;
use str_utils::str_ci::{StrCi, StringCi, StringCi1};
use str_utils::str_own_ext::StrOwnExt;
use str_utils::text::{
    byte_len, char_width, chars_of, compare_chars, push_decimal, reversed, same_chars, string_of,
    Order,
};
use str_utils::{NoneIfEmpty, TrimInPlace};

#[test]
fn none_if_empty_works() {
    assert_eq!("".none_if_empty(), None);
    assert_eq!(" ".none_if_empty(), Some(" "));
    assert_eq!(" ".none_if_trim_empty(), None);
    assert_eq!(" a ".none_if_trim_empty(), Some(" a "));
    assert_eq!(String::new().none_if_empty(), None);
    assert_eq!("a".to_string().none_if_empty(), Some("a".to_string()));
    assert_eq!(" \t".to_string().none_if_trim_empty(), None);
    assert_eq!(" a".to_string().none_if_trim_empty(), Some(" a".to_string()));
    assert_eq!(Some("").none_if_empty(), None);
    assert_eq!(Some("a").none_if_empty(), Some("a"));
    assert_eq!(Some(" ").none_if_trim_empty(), None);
    assert_eq!(None::<&str>.none_if_empty(), None);
    assert_eq!(None::<&str>.none_if_trim_empty(), None);
    assert_eq!(Cow::Borrowed("").none_if_empty(), None);
    assert_eq!(Cow::Borrowed("a").none_if_empty(), Some(Cow::Borrowed("a")));
    assert_eq!(Cow::Borrowed(" ").none_if_trim_empty(), None);
    assert_eq!(Cow::Borrowed(" a").none_if_trim_empty(), Some(Cow::Borrowed(" a")));
}

#[test]
fn none_if_empty_on_form_str() {
    let empty = FormStr::<Trim<()>>::new("  ").unwrap();
    assert!(empty.none_if_empty().is_none());
    let full = FormStr::<Trim<()>>::new(" a ").unwrap();
    assert_eq!(full.none_if_empty().unwrap().as_str(), "a");
    let blank = FormStr::<()>::new(" ").unwrap();
    assert!(blank.clone().none_if_empty().is_some());
    assert!(blank.none_if_trim_empty().is_none());
    let kept = FormStr::<()>::new(" a").unwrap();
    assert_eq!(kept.none_if_trim_empty().unwrap().as_str(), " a");
}

#[test]
fn trim_in_place_works() {
    let mut s = " test ".to_string();
    TrimInPlace::trim_in_place(&mut s);
    assert_eq!(&*s, "test");

    let mut s = "test".to_string();
    assert_eq!(TrimInPlace::trim_in_place(&mut s).as_str(), "test");

    let mut c = Cow::Borrowed(" a b\n");
    TrimInPlace::trim_in_place(&mut c);
    assert_eq!(&*c, "a b");

    let mut o = Some(" x ".to_string());
    TrimInPlace::trim_in_place(&mut o);
    assert_eq!(o, Some("x".to_string()));

    let mut n: Option<String> = None;
    TrimInPlace::trim_in_place(&mut n);
    assert_eq!(n, None);

    let mut b: Box<str> = " boxed ".into();
    TrimInPlace::trim_in_place(&mut b);
    assert_eq!(&*b, "boxed");

    let mut inner = " inner ".to_string();
    let mut outer = &mut inner;
    TrimInPlace::trim_in_place(&mut outer);
    assert_eq!(inner, "inner");
}

#[test]
fn none_if_empty_on_boxed_str() {
    let empty: Box<str> = "".into();
    assert_eq!(empty.none_if_empty(), None);
    let blank: Box<str> = " ".into();
    assert_eq!(blank.clone().none_if_empty(), Some(blank.clone()));
    assert_eq!(blank.none_if_trim_empty(), None);
    let full: Box<str> = " a".into();
    assert_eq!(full.clone().none_if_trim_empty(), Some(full));
}

#[test]
fn str_own_ext_trims() {
    let mut s = " test ".to_string();
    StrOwnExt::trim_in_place(&mut s);
    assert_eq!(&*s, "test");
}

#[test]
fn case_insensitive_strings() {
    assert_eq!(StrCi::new("Hello"), StrCi::new("hELLO"));
    assert!(StrCi::new("Hello") != StrCi::new("Hell"));
    assert!(StrCi::new("Hello").eq_str("HELLO"));
    assert_eq!(StrCi::new("Hello").as_str(), "Hello");
    assert_eq!(StringCi::from("É"), StringCi::from("é"));
    assert!(StringCi::from("e") != StringCi::from("é"));
    assert_eq!(StringCi::from("Ab").as_str_ci(), StrCi::new("aB"));
    assert_eq!(StringCi::from("Ab").as_str(), "Ab");
    assert_eq!(StringCi::from("Ab").clone().as_str(), "Ab");
    assert_eq!(StringCi::default().as_str(), "");
    assert_eq!(StrCi::new("Ab").to_owned(), StringCi("AB".to_string()));
    let f = FormStr::<()>::new("abc").unwrap();
    assert!(StrCi::new("ABC").eq_form_str(&f));
    assert!(StrCi::new("ABC") == f);
    assert!(StrCi::new("ABC") == *"abc");
    assert!(StrCi::new("ABC") != *"abd");
}

#[test]
fn string_ci1_as_tuple() {
    let a = StringCi1::StrIc(StrCi::new("Key"), 1);
    let b = StringCi1::StringIc(StringCi::from("KEY"), 1);
    let (sa, na) = a.as_tuple();
    let (sb, nb) = b.as_tuple();
    assert_eq!(sa, sb);
    assert_eq!(na, nb);
    assert_eq!(sb.as_str(), "KEY");
}

#[test]
fn text_helpers() {
    assert_eq!(chars_of("aé"), vec!['a', 'é']);
    assert_eq!(string_of(&['a', 'é']), "aé");
    assert!(same_chars(&['a'], &['a']));
    assert!(!same_chars(&['a'], &['a', 'b']));
    assert!(!same_chars(&['a'], &['b']));
    assert_eq!(compare_chars(&['a'], &['a', 'b']), Order::Less);
    assert_eq!(compare_chars(&['b'], &['a', 'b']), Order::Greater);
    assert_eq!(compare_chars(&['é'], &['z']), Order::Greater);
    assert_eq!(compare_chars(&[], &[]), Order::Equal);
    assert_eq!(reversed(&['a', 'b', 'c']), vec!['c', 'b', 'a']);
}

#[test]
fn utf8_widths() {
    assert_eq!(char_width('a'), 1);
    assert_eq!(char_width('\u{7f}'), 1);
    assert_eq!(char_width('\u{80}'), 2);
    assert_eq!(char_width('é'), 2);
    assert_eq!(char_width('\u{7ff}'), 2);
    assert_eq!(char_width('\u{800}'), 3);
    assert_eq!(char_width('老'), 3);
    assert_eq!(char_width('\u{ffff}'), 3);
    assert_eq!(char_width('\u{10000}'), 4);
    for c in ['a', 'é', '老', '\u{1F600}'] {
        assert_eq!(char_width(c), c.len_utf8());
    }
    assert_eq!(byte_len(&['a', 'é', '老', '\u{1F600}']), 10);
    assert_eq!(byte_len(&[]), 0);
}

#[test]
fn decimal_digits() {
    let mut s = String::from("n=");
    push_decimal(&mut s, 0);
    push_decimal(&mut s, 7);
    push_decimal(&mut s, 10);
    push_decimal(&mut s, 12345);
    assert_eq!(s, "n=071012345");
}
