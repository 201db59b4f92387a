use lufa::{
    build_url, deserialize_percentage, deserialize_usize, ApiResponse, DecodeError, Error, Language,
    LufaError,
};

#[test]
fn usize_fields() {
    assert_eq!(deserialize_usize("1"), Ok(1));
    assert_eq!(deserialize_usize("+7"), Ok(7));
    assert_eq!(deserialize_usize("18446744073709551615"), Ok(usize::MAX));
    assert_eq!(deserialize_usize("18446744073709551616"), Err(DecodeError::InvalidNumber));
    assert_eq!(deserialize_usize("-1"), Err(DecodeError::InvalidNumber));
    assert_eq!(deserialize_usize(""), Err(DecodeError::InvalidNumber));
    assert_eq!(deserialize_usize("+"), Err(DecodeError::InvalidNumber));
    assert_eq!(deserialize_usize("1 "), Err(DecodeError::InvalidNumber));
}

#[test]
fn percentage_text() {
    assert_eq!(deserialize_percentage(""), None);
    assert_eq!(deserialize_percentage("12.5 %"), Some("12.5".to_string()));
    assert_eq!(deserialize_percentage("-3 pct"), Some("-3".to_string()));
}

#[test]
fn language_codes() {
    assert_eq!(Language::English.code(), "en");
    assert_eq!(Language::French.code(), "fr");
    assert_eq!(Language::French.to_string(), "fr".to_string());
    assert_eq!(Language::from_code("en"), Some(Language::English));
    assert_eq!(Language::from_code("fr"), Some(Language::French));
    assert_eq!(Language::from_code("de"), None);
    let code: &str = Language::French.into();
    assert_eq!(code, "fr");
    let code: &str = Language::English.into();
    assert_eq!(code, "en");
}

#[test]
fn urls() {
    assert_eq!(build_url(Language::English, "/login"), "https://montreal.lufa.com/en/login");
    assert_eq!(build_url(Language::French, "//users/profileData"), "https://montreal.lufa.com/fr/users/profileData");
    assert_eq!(build_url(Language::English, ""), "https://montreal.lufa.com/en/");
}

#[test]
fn response_data() {
    let r = ApiResponse { success: true, data: Some(3u8), message: None };
    assert_eq!(r.into_data("failed to get profile data"), Ok(3));
    let r: ApiResponse<u8> = ApiResponse { success: false, data: None, message: None };
    assert_eq!(
        r.into_data("failed to get profile data"),
        Err(Error::Lufa { source: LufaError { message: "failed to get profile data".to_string() } })
    );
}

#[test]
fn lufa_error_message() {
    let e = LufaError { message: "not logged in".to_string() };
    assert_eq!(e.to_string(), "not logged in".to_string());
}
