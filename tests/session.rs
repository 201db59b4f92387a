use lufa::{
    cookies_from_header, login_payload, session_payload, Cookie, Error, LufaError, LufaState, LufaStateInfo, Session,
    State,
};

const PREFIX: &str = "0123456789abcdef0123456789abcdef01234567";

fn cookie(name: &str, value: &str) -> Cookie {
    Cookie { name: name.to_string(), value: value.to_string() }
}

fn lufa(message: &str) -> Error {
    Error::Lufa { source: LufaError { message: message.to_string() } }
}

fn payload_state() -> LufaState {
    LufaState(
        "123456".to_string(),
        "john@example.com".to_string(),
        0,
        LufaStateInfo { user_email: "john@example.com".to_string(), first_name: "John".to_string() },
    )
}

#[test]
fn login_without_session_cookie_fails() {
    let cookies = vec![cookie("other", "x"), cookie("lufaState", "deleted"), cookie("lufaState", "")];
    let s = Session::new();
    assert_eq!(login_payload(&cookies), Err(lufa("failed to login")));
    assert_eq!(*s.state(), None);
    assert_eq!(login_payload(&vec![]), Err(lufa("failed to login")));
}

#[test]
fn login_payload_is_decoded() {
    let value = format!("{}a%3A2%3A%7Bi%3A0%3Bs%3A6%3A%22123456%22%3B%7D", PREFIX);
    let cookies = vec![cookie("lufaState", "deleted"), cookie("lufaState", &value)];
    assert_eq!(login_payload(&cookies), Ok("a:2:{i:0;s:6:\"123456\";}".to_string()));
}

#[test]
fn session_payload_rules() {
    assert_eq!(session_payload(&format!("{}plain+text%", PREFIX)), Ok("plain+text%".to_string()));
    assert_eq!(session_payload(&format!("{}%C3%A9%4", PREFIX)), Ok("é%4".to_string()));
    assert_eq!(session_payload(&format!("{}%FF", PREFIX)), Err(Error::UrlEncoding));
    assert_eq!(session_payload("short"), Err(lufa("failed to login")));
}

#[test]
fn login_with_valid_payload_authenticates() {
    let mut s = Session::new();
    assert_eq!(s.complete_login(Ok(payload_state())), Ok(()));
    assert_eq!(
        *s.state(),
        Some(State { user_id: "123456".to_string(), email: "john@example.com".to_string() })
    );
    assert_eq!(s.user_id(), Ok("123456".to_string()));
}

#[test]
fn failed_payload_decode_leaves_session() {
    let mut s = Session::new();
    let e = Error::SerdePhp { message: "bad".to_string() };
    assert_eq!(s.complete_login(Err(e.clone())), Err(e));
    assert_eq!(*s.state(), None);
}

#[test]
fn logout_clears_state() {
    let mut s = Session::new();
    s.complete_login(Ok(payload_state())).unwrap();
    assert_eq!(s.on_logout(500), Ok(()));
    assert!(s.state().is_some());
    assert_eq!(s.on_logout(200), Ok(()));
    assert_eq!(*s.state(), None);
    assert_eq!(s.on_logout(200), Ok(()));
    assert_eq!(*s.state(), None);
}

#[test]
fn guard_needs_state_and_cookie() {
    let store = vec![cookie("lufaState", "abc")];
    let s = Session::new();
    assert_eq!(s.guard_logged_in(&store), Err(lufa("not logged in")));
    assert!(!s.is_logged_in(&store));
    assert_eq!(s.user_id(), Err(lufa("not logged in")));

    let mut s = Session::new();
    s.complete_login(Ok(payload_state())).unwrap();
    assert!(s.is_logged_in(&store));
    assert_eq!(s.guard_logged_in(&store), Ok(()));
    assert!(!s.is_logged_in(&vec![]));
    assert!(!s.is_logged_in(&vec![cookie("lufaState", "deleted")]));
    assert_eq!(s.guard_logged_in(&vec![]), Err(lufa("not logged in")));
}

#[test]
fn cookie_header_pairs() {
    let cs = cookies_from_header("a=1; lufaState=abc=def ;  b = 2;junk; c=");
    assert_eq!(
        cs,
        vec![cookie("a", "1"), cookie("lufaState", "abc"), cookie("b ", " 2"), cookie("c", "")]
    );
    assert_eq!(cookies_from_header(""), vec![]);
    assert_eq!(cookies_from_header(";;"), vec![]);
}

#[test]
fn login_state_follows_cookie_header() {
    let mut s = Session::new();
    s.complete_login(Ok(payload_state())).unwrap();
    assert!(s.is_logged_in(&cookies_from_header("x=1; lufaState=0123")));
    assert!(!s.is_logged_in(&cookies_from_header("x=1; lufaState=deleted")));
    assert!(!s.is_logged_in(&cookies_from_header("")));
}
