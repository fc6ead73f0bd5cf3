use str_utils::char_map::{lower_no_accent_char, lower_no_accent_chars, FoldEntry, FoldTable};
use str_utils::char_map::lower_no_accent::fold_chars;
use str_utils::text::Order;

#[test]
fn test_accent_removal() {
    assert_eq!("aei", &lower_no_accent_chars("àéï").collect());
    assert_eq!("a.e i", &lower_no_accent_chars("à.é ï").collect());
    assert_eq!("123", &lower_no_accent_chars("123").collect());
    assert_eq!("", &lower_no_accent_chars("").collect());
}

#[test]
fn fold_of_single_characters() {
    assert_eq!(lower_no_accent_char('É'), FoldEntry::One('e'));
    assert_eq!(lower_no_accent_char('a'), FoldEntry::One('a'));
    assert_eq!(lower_no_accent_char('Z'), FoldEntry::One('z'));
    assert_eq!(lower_no_accent_char(' '), FoldEntry::One(' '));
    // A combining mark alone is neither ASCII nor alphanumeric.
    assert_eq!(lower_no_accent_char('\u{301}'), FoldEntry::Empty);
    // The capital I with a dot above lowers to an i and a combining dot.
    assert_eq!(lower_no_accent_char('İ'), FoldEntry::One('i'));
    // A Hangul syllable decomposes into three letters.
    assert_eq!(
        lower_no_accent_char('한'),
        FoldEntry::Three('\u{1112}', '\u{1161}', '\u{11ab}')
    );
}

#[test]
fn fold_is_idempotent_on_samples() {
    let samples = "aZéÉçÇñß İ1٣.-_한ÅΩµǅ北";
    for c in samples.chars() {
        let once = lower_no_accent_char(c);
        let mut first: Vec<char> = Vec::new();
        let mut i = 0;
        while let Some(d) = once.get(i) {
            first.push(d);
            i += 1;
        }
        assert_eq!(fold_chars(&first), first, "folding {:?} twice", c);
    }
}

#[test]
fn fold_entry_from_chars_caps_at_three() {
    assert_eq!(FoldEntry::from_chars(&[]), FoldEntry::Empty);
    assert_eq!(FoldEntry::from_chars(&['a', 'b']), FoldEntry::Two('a', 'b'));
    let e = FoldEntry::from_chars(&['a', 'b', 'c', 'd']);
    assert_eq!(e, FoldEntry::Three('a', 'b', 'c'));
    assert_eq!(e.len(), 3);
    assert_eq!(e.get(2), Some('c'));
    assert_eq!(e.get(3), None);
}

#[test]
fn mapped_chars_yields_in_order() {
    let mut it = lower_no_accent_chars("Éa");
    assert_eq!(it.next(), Some('e'));
    assert_eq!(it.rest(), vec!['a']);
    assert_eq!(it.next(), Some('a'));
    assert_eq!(it.next(), None);
    assert_eq!(it.next(), None);
}

#[test]
fn mapped_chars_drain_gives_what_is_left() {
    let mut it = lower_no_accent_chars("ÀBç");
    assert_eq!(it.next(), Some('a'));
    assert_eq!(it.drain(), vec!['b', 'c']);
    assert_eq!(fold_chars(&['À', '.', 'Ç']), vec!['a', '.', 'c']);
    assert_eq!(fold_chars(&[]), Vec::<char>::new());
}

#[test]
fn mapped_chars_skips_empty_folds() {
    let mut it = lower_no_accent_chars("a\u{301}b");
    assert_eq!(it.next(), Some('a'));
    assert_eq!(it.next(), Some('b'));
    assert_eq!(it.next(), None);
}

#[test]
fn mapped_chars_compare() {
    assert!(lower_no_accent_chars("CAFÉ").same(&lower_no_accent_chars("cafe")));
    assert!(!lower_no_accent_chars("cafe").same(&lower_no_accent_chars("cafes")));
    assert_eq!(
        lower_no_accent_chars("cafe").order(&lower_no_accent_chars("Cafés")),
        Order::Less
    );
    assert_eq!(
        lower_no_accent_chars("b").order(&lower_no_accent_chars("Á")),
        Order::Greater
    );
    assert!(lower_no_accent_chars("CAFÉ") == lower_no_accent_chars("cafe"));
    assert!(lower_no_accent_chars("CAFÉ") != lower_no_accent_chars("cafa"));
    assert!(lower_no_accent_chars("Éa") < lower_no_accent_chars("eb"));
    assert_eq!(
        lower_no_accent_chars("b").cmp(&lower_no_accent_chars("Á")),
        std::cmp::Ordering::Greater
    );
    assert_eq!(
        lower_no_accent_chars("a").partial_cmp(&lower_no_accent_chars("Á")),
        Some(std::cmp::Ordering::Equal)
    );
}

#[test]
fn mapped_chars_clone_is_independent() {
    let mut it = lower_no_accent_chars("ab");
    let copy = it.clone();
    assert_eq!(it.next(), Some('a'));
    assert_eq!(copy.collect(), "ab");
}

#[test]
fn fold_table_agrees_with_fold() {
    let table = FoldTable::build(0x250);
    assert_eq!(table.len(), 0x250);
    for c in ['a', 'Z', 'É', 'ñ', '\u{24f}', '한', '\u{10ffff}'] {
        assert_eq!(table.fold(c), lower_no_accent_char(c));
    }
    assert_eq!(table.fold('É'), FoldEntry::One('e'));
    assert_eq!(FoldTable::build(0).fold('É'), FoldEntry::One('e'));
}

#[test]
fn fold_table_covers_every_code_point() {
    let table = FoldTable::new();
    assert_eq!(table.fold('\u{d7ff}'), lower_no_accent_char('\u{d7ff}'));
    assert_eq!(table.fold('\u{e000}'), lower_no_accent_char('\u{e000}'));
    assert_eq!(table.fold('\u{10ffff}'), FoldEntry::Empty);
    assert_eq!(table.fold('Ç'), FoldEntry::One('c'));
}

#[test]
fn fold_is_idempotent_on_every_character() {
    let mut failures: Vec<char> = Vec::new();
    for code in 0..=0x10ffffu32 {
        if let Some(c) = char::from_u32(code) {
            let once = lower_no_accent_char(c);
            let mut first: Vec<char> = Vec::new();
            let mut i = 0;
            while let Some(d) = once.get(i) {
                first.push(d);
                i += 1;
            }
            if fold_chars(&first) != first {
                failures.push(c);
            }
        }
    }
    assert_eq!(failures, Vec::<char>::new());
}
