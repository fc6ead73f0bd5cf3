use str_utils::form_str::formats::{Filename, Lower, MaxLen, MinLen, SubPath, Trim, Upper};
use str_utils::form_str::{FormStr, FormatErr};
use str_utils::fs::FsError;

#[test]
fn test_combination() {
    type C = Lower<MaxLen<3, Trim<()>>>;

    assert!(FormStr::<C>::new(" Hello").is_err());
    assert_eq!(FormStr::<C>::new(" Hel").unwrap().as_str(), "hel");

    type D = Lower<MinLen<1, MaxLen<3, Trim<()>>>>;

    assert!(FormStr::<D>::new(" ").is_err());
    assert_eq!(FormStr::<D>::new(" ABC").unwrap().as_str(), "abc");
}

#[test]
fn form_str_test_lower() {
    type L = Lower<()>;

    assert_eq!(FormStr::<L>::new("Hello").unwrap().as_str(), "hello");
}

#[test]
fn test_upper() {
    type U = Upper<()>;

    assert_eq!(FormStr::<U>::new("Hello").unwrap().as_str(), "HELLO");
}

#[test]
fn format_errors() {
    type C = MaxLen<3, ()>;
    assert_eq!(FormStr::<C>::new("abcd").unwrap_err(), FormatErr::MaxLen(3));
    assert_eq!(FormStr::<C>::new("éééé").unwrap_err(), FormatErr::MaxLen(3));
    assert_eq!(FormStr::<C>::new("ééé").unwrap().as_str(), "ééé");
    type D = MinLen<2, ()>;
    assert_eq!(FormStr::<D>::new("a").unwrap_err(), FormatErr::MinLen);
    assert_eq!(FormStr::<D>::new("ab").unwrap().as_str(), "ab");
    assert_eq!(
        FormStr::<Filename>::new("a.").unwrap_err(),
        FormatErr::Fs(FsError::EndsWithDot)
    );
    assert_eq!(
        FormStr::<SubPath>::new("/a").unwrap_err(),
        FormatErr::Fs(FsError::Root)
    );
}

#[test]
fn format_error_messages() {
    assert_eq!(FormatErr::MaxLen(120).message(), "max len 120");
    assert_eq!(FormatErr::MaxLen(0).message(), "max len 0");
    assert_eq!(FormatErr::MinLen.message(), "min len");
    assert_eq!(FormatErr::Fs(FsError::Home).message(), "path refer to ~");
}

#[test]
fn filename_and_sub_path_formats() {
    assert_eq!(FormStr::<Filename>::new(" a.txt ").unwrap().as_str(), "a.txt");
    assert_eq!(
        FormStr::with_format(Filename, "b.txt").unwrap().as_str(),
        "b.txt"
    );
    assert_eq!(
        FormStr::<SubPath>::new("dir / file.txt").unwrap().as_str(),
        "dirfile.txt"
    );
}

#[test]
fn new_opt_and_default() {
    assert!(FormStr::<MinLen<1, ()>>::new_opt("").is_none());
    assert_eq!(FormStr::<Trim<()>>::new_opt(" a ").unwrap().as_str(), "a");
    assert_eq!(FormStr::<Trim<()>>::default().as_str(), "");
}

#[test]
fn form_str_compares_by_its_text() {
    let a = FormStr::<Trim<()>>::new(" abc ").unwrap();
    let b = FormStr::<Trim<()>>::new("abc").unwrap();
    let c = FormStr::<Trim<()>>::new("abd").unwrap();
    assert!(a == b);
    assert!(a != c);
    assert!(a < c);
    assert_eq!(a.cmp(&c), std::cmp::Ordering::Less);
    assert_eq!(c.cmp(&a), std::cmp::Ordering::Greater);
    assert_eq!(a.partial_cmp(&b), Some(std::cmp::Ordering::Equal));
    assert_eq!(a.clone().into_string(), "abc");
    assert_eq!(&*a.into_boxed_str(), "abc");
}
