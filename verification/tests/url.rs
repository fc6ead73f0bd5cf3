use str_utils::url::{is_accepted_url_char, validate_accepted_url_chars, UrlError};

#[test]
fn test_validate_accepted_url_chars() {
    assert!(
        validate_accepted_url_chars("http://est.jon/v?q=param&other=param%20#test=123").is_ok()
    );
}

#[test]
fn url_rejects_first_invalid_char() {
    assert_eq!(
        validate_accepted_url_chars("http://a b/<"),
        Err(UrlError::InvalidChar(' '))
    );
    assert_eq!(
        validate_accepted_url_chars("http://é"),
        Err(UrlError::InvalidChar('é'))
    );
    assert_eq!(validate_accepted_url_chars("  http://a  "), Ok(()));
    assert_eq!(validate_accepted_url_chars(""), Ok(()));
    assert_eq!(
        validate_accepted_url_chars("-._~:/?#[]@!$&'()*+,;=%azAZ09"),
        Ok(())
    );
    assert!(!is_accepted_url_char('"'));
    assert!(!is_accepted_url_char('{'));
    assert_eq!(UrlError::InvalidChar('<').message(), "invalid url char <");
}
