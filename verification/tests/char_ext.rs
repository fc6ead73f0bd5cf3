use str_utils::CharExt;

#[test]
fn no_accent_works() {
    assert_eq!('à'.no_accent(), "a");
    assert_eq!('À'.no_accent(), "A");
}

#[test]
fn no_accent_of_ligature_and_ascii() {
    assert_eq!('Æ'.no_accent(), "AE");
    assert_eq!('z'.no_accent(), "z");
    assert_eq!('北'.no_accent(), "Bei ");
}
