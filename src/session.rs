//! The session state machine: the session cookie of a login response, its payload, and
//! the guarded access to the logged-in identity.

use vstd::prelude::*;

use std::string::FromUtf8Error;
use vstd::string::StrSliceExecFns;
use vstd::utf8::{decode_utf8, encode_utf8, valid_utf8};

use crate::error::{Error, LufaError};
use crate::text::{
    chars_of, find_char, first_index, pieces, same_text, slice_of, string_of, trim, trimmed,
};

verus! {

/// std's `FromUtf8Error`, carried as it is.
#[verifier::external_type_specification]
#[verifier::external_body]
pub struct ExFromUtf8Error(FromUtf8Error);

/// The decoded identity of a logged-in user.
#[derive(Debug, Clone, PartialEq, Eq)]
pub struct State {
    pub user_id: String,
    pub email: String,
}

/// A cookie that the server set, or that the cookie store holds.
#[derive(Debug, Clone, PartialEq, Eq)]
pub struct Cookie {
    pub name: String,
    pub value: String,
}

/// The session payload: user id, email, a number, and further details.
#[derive(Debug, Clone, PartialEq, Eq)]
pub struct LufaState(pub String, pub String, pub i32, pub LufaStateInfo);

/// The further details of a session payload.
#[derive(Debug, Clone, PartialEq, Eq)]
pub struct LufaStateInfo {
    pub user_email: String,
    pub first_name: String,
}

/// How many leading characters of the session cookie carry nothing this client reads.
pub const SESSION_PREFIX_LEN: usize = 40;

pub open spec fn session_cookie_name() -> Seq<char> {
    "lufaState"@
}

/// A cookie that carries a live session: named `lufaState`, not empty and not `deleted`.
pub open spec fn is_live_session_cookie(c: Cookie) -> bool {
    &&& c.name@ == session_cookie_name()
    &&& c.value@.len() > 0
    &&& c.value@ != "deleted"@
}

pub open spec fn has_live_session_cookie(cs: Seq<Cookie>) -> bool {
    exists|i: int| 0 <= i < cs.len() && is_live_session_cookie(#[trigger] cs[i])
}

/// An error of this client with the message `m`.
pub open spec fn is_lufa_error(e: Error, m: Seq<char>) -> bool {
    e matches Error::Lufa { source } && source.message@ == m
}

pub open spec fn login_failed_message() -> Seq<char> {
    "failed to login"@
}

pub open spec fn not_logged_in_message() -> Seq<char> {
    "not logged in"@
}

pub open spec fn hex_value(b: u8) -> Option<u8> {
    if 48 <= b <= 57 {
        Some((b - 48) as u8)
    } else if 65 <= b <= 70 {
        Some((b - 55) as u8)
    } else if 97 <= b <= 102 {
        Some((b - 87) as u8)
    } else {
        None
    }
}

/// `s` with each `%` followed by two hex digits replaced by the byte they write; every
/// other byte, a lone `%` too, is kept.
pub open spec fn percent_decoded(s: Seq<u8>) -> Seq<u8>
    decreases s.len(),
{
    if s.len() == 0 {
        seq![]
    } else if s[0] == 37 && s.len() >= 3 && hex_value(s[1]) is Some && hex_value(s[2]) is Some {
        seq![(hex_value(s[1])->0 * 16 + hex_value(s[2])->0) as u8] + percent_decoded(
            s.subrange(3, s.len() as int),
        )
    } else {
        seq![s[0]] + percent_decoded(s.drop_first())
    }
}

/// Relies on urlencoding's `decode`: it percent-decodes the UTF-8 bytes of `s` and fails
/// where the result is not UTF-8.
#[verifier::external_body]
fn percent_decode(s: &str) -> (r: Result<String, FromUtf8Error>)
    ensures
        r is Ok <==> valid_utf8(percent_decoded(encode_utf8(s@))),
        r matches Ok(t) ==> t@ == decode_utf8(percent_decoded(encode_utf8(s@))),
{
    urlencoding::decode(s).map(|c| c.into_owned())
}

/// Whether `c` carries a live session.
pub fn is_session_cookie(c: &Cookie) -> (r: bool)
    ensures
        r == is_live_session_cookie(*c),
{
    same_text(c.name.as_str(), "lufaState") && c.value.as_str().unicode_len() > 0 && !same_text(
        c.value.as_str(),
        "deleted",
    )
}

/// The position of the first cookie that carries a live session.
pub fn find_session_cookie(cookies: &Vec<Cookie>) -> (r: Option<usize>)
    ensures
        match r {
            Some(i) => i < cookies.len() && is_live_session_cookie(cookies@[i as int]) && forall|
                j: int,
            |
                0 <= j < i ==> !is_live_session_cookie(#[trigger] cookies@[j]),
            None => !has_live_session_cookie(cookies@),
        },
{
    let mut i: usize = 0;
    while i < cookies.len()
        invariant
            i <= cookies.len(),
            forall|j: int| 0 <= j < i ==> !is_live_session_cookie(#[trigger] cookies@[j]),
        decreases cookies.len() - i,
    {
        if is_session_cookie(&cookies[i]) {
            return Some(i);
        }
        i = i + 1;
    }
    None
}

/// What the session cookie's value carries past its prefix, percent-decoded; `None`
/// where the value is shorter than the prefix or does not decode to UTF-8.
pub open spec fn payload_of(value: Seq<char>) -> Option<Seq<char>> {
    let rest = value.subrange(SESSION_PREFIX_LEN as int, value.len() as int);
    if value.len() < SESSION_PREFIX_LEN || !valid_utf8(percent_decoded(encode_utf8(rest))) {
        None
    } else {
        Some(decode_utf8(percent_decoded(encode_utf8(rest))))
    }
}

fn lufa_error(message: &str) -> (e: Error)
    ensures
        is_lufa_error(e, message@),
{
    Error::Lufa { source: LufaError { message: message.to_owned() } }
}

/// Drops the prefix of a session cookie's value and percent-decodes the rest.
pub fn session_payload(value: &str) -> (r: Result<String, Error>)
    ensures
        match payload_of(value@) {
            Some(p) => r matches Ok(t) && t@ == p,
            None => r matches Err(e) && (value@.len() < SESSION_PREFIX_LEN ==> is_lufa_error(
                e,
                login_failed_message(),
            )) && (value@.len() >= SESSION_PREFIX_LEN ==> e == Error::UrlEncoding),
        },
{
    let n = value.unicode_len();
    if n < SESSION_PREFIX_LEN {
        return Err(lufa_error("failed to login"));
    }
    let rest = value.substring_char(SESSION_PREFIX_LEN, n);
    match percent_decode(rest) {
        Ok(t) => Ok(t),
        Err(_) => Err(Error::UrlEncoding),
    }
}

/// What a login response owes: the decoded payload of its first live session cookie.
pub open spec fn login_payload_spec(cookies: Seq<Cookie>) -> Option<Seq<char>> {
    if has_live_session_cookie(cookies) {
        let i = choose|i: int|
            0 <= i < cookies.len() && is_live_session_cookie(cookies[i]) && forall|j: int|
                0 <= j < i ==> !is_live_session_cookie(#[trigger] cookies[j]);
        payload_of(cookies[i].value@)
    } else {
        None
    }
}

/// The session payload that a login response carries in its cookies, ready to be read
/// as a serialized array.
pub fn login_payload(cookies: &Vec<Cookie>) -> (r: Result<String, Error>)
    ensures
        !has_live_session_cookie(cookies@) ==> (r matches Err(e) && is_lufa_error(
            e,
            login_failed_message(),
        )),
        has_live_session_cookie(cookies@) ==> match login_payload_spec(cookies@) {
            Some(p) => r matches Ok(t) && t@ == p,
            None => r is Err,
        },
{
    match find_session_cookie(cookies) {
        None => Err(lufa_error("failed to login")),
        Some(i) => {
            proof {
                let k = choose|k: int|
                    0 <= k < cookies@.len() && is_live_session_cookie(cookies@[k]) && forall|j: int|
                        0 <= j < k ==> !is_live_session_cookie(#[trigger] cookies@[j]);
                if k < i {
                    assert(!is_live_session_cookie(cookies@[k]));
                }
                if i < k {
                    assert(!is_live_session_cookie(cookies@[i as int]));
                }
            }
            session_payload(cookies[i].value.as_str())
        },
    }
}


/// The client's view of its login: `None` while anonymous, the decoded identity once a
/// login succeeded. The cookie store, not this value, says whether the session is live.
#[derive(Debug, Clone, PartialEq, Eq)]
pub struct Session {
    state: Option<State>,
}

impl View for Session {
    type V = Option<State>;

    closed spec fn view(&self) -> Option<State> {
        self.state
    }
}

/// The logout endpoint answered with success.
pub open spec fn logout_succeeded(status: u16) -> bool {
    status == 200
}

impl Session {
    /// An anonymous session.
    pub fn new() -> (r: Session)
        ensures
            r@ is None,
    {
        Session { state: None }
    }

    /// The identity of an authenticated session; `None` while anonymous.
    pub fn state(&self) -> (r: &Option<State>)
        ensures
            *r == self@,
    {
        &self.state
    }

    /// Ends a login with the session payload as decoded from the serialized array: a
    /// payload makes the session authenticated as its user id and email; a decode error
    /// leaves the session as it was and is returned.
    pub fn complete_login(&mut self, decoded: Result<LufaState, Error>) -> (r: Result<(), Error>)
        ensures
            match decoded {
                Ok(st) => r is Ok && final(self)@ == Some(
                    (State { user_id: st.0, email: st.1 }),
                ),
                Err(e) => r == Err::<(), Error>(e) && *final(self) == *old(self),
            },
    {
        match decoded {
            Ok(st) => {
                self.state = Some(State { user_id: st.0, email: st.1 });
                Ok(())
            },
            Err(e) => Err(e),
        }
    }

    /// Applies the logout endpoint's answer: on success the session becomes anonymous,
    /// whatever it was; otherwise it stays as it was. Logging out is never an error.
    pub fn on_logout(&mut self, status: u16) -> (r: Result<(), Error>)
        ensures
            r is Ok,
            logout_succeeded(status) ==> final(self)@ is None,
            !logout_succeeded(status) ==> *final(self) == *old(self),
    {
        if status == 200 {
            self.state = None;
        }
        Ok(())
    }

    /// Whether the client is logged in: the session is authenticated and the cookie store
    /// still holds a live session cookie.
    pub fn is_logged_in(&self, store: &Vec<Cookie>) -> (r: bool)
        ensures
            r == (self@ is Some && has_live_session_cookie(store@)),
    {
        let has_state = match &self.state {
            Some(_) => true,
            None => false,
        };
        let has_cookie = match find_session_cookie(store) {
            Some(_) => true,
            None => false,
        };
        has_state && has_cookie
    }

    /// Fails with "not logged in" unless the client is logged in; checks state alone and
    /// makes no request.
    pub fn guard_logged_in(&self, store: &Vec<Cookie>) -> (r: Result<(), Error>)
        ensures
            r is Ok <==> (self@ is Some && has_live_session_cookie(store@)),
            r matches Err(e) ==> is_lufa_error(e, not_logged_in_message()),
    {
        if self.is_logged_in(store) {
            Ok(())
        } else {
            Err(lufa_error("not logged in"))
        }
    }

    /// The user id of an authenticated session.
    pub fn user_id(&self) -> (r: Result<String, Error>)
        ensures
            match self@ {
                Some(s) => r == Ok::<String, Error>(s.user_id),
                None => r matches Err(e) && is_lufa_error(e, not_logged_in_message()),
            },
    {
        match &self.state {
            Some(s) => Ok(s.user_id.clone()),
            None => Err(lufa_error("not logged in")),
        }
    }
}

/// A login whose response carries no live session cookie fails with "failed to login",
/// and an anonymous session then stays anonymous: no payload exists to complete it with.
pub proof fn lemma_login_without_cookie(cookies: Seq<Cookie>)
    requires
        !has_live_session_cookie(cookies),
    ensures
        login_payload_spec(cookies) is None,
{
}

/// On an anonymous session the guard fails, whatever the cookie store holds.
pub proof fn lemma_guard_on_anonymous(s: Session, store: Seq<Cookie>)
    requires
        s@ is None,
    ensures
        !(s@ is Some && has_live_session_cookie(store)),
{
}

} // verus!

verus! {

/// The name and value that a trimmed `name=value` piece of a `Cookie` header holds: the
/// value ends at the next `=`. `None` where the piece has no `=`.
pub open spec fn cookie_pair(t: Seq<char>) -> Option<(Seq<char>, Seq<char>)> {
    let k = first_index(t, '=');
    if k < t.len() {
        let rest = t.subrange((k + 1) as int, t.len() as int);
        Some((t.take(k as int), rest.take(first_index(rest, '=') as int)))
    } else {
        None
    }
}

/// The pairs that the pieces of a `Cookie` header hold, in order.
pub open spec fn pairs_of(ps: Seq<Seq<char>>) -> Seq<(Seq<char>, Seq<char>)>
    decreases ps.len(),
{
    if ps.len() == 0 {
        seq![]
    } else {
        match cookie_pair(trimmed(ps.last())) {
            Some(p) => pairs_of(ps.drop_last()).push(p),
            None => pairs_of(ps.drop_last()),
        }
    }
}

pub open spec fn cookie_view(c: Cookie) -> (Seq<char>, Seq<char>) {
    (c.name@, c.value@)
}

/// The cookies that a piece of a `Cookie` header holds.
fn cookie_from_piece(piece: &Vec<char>) -> (r: Option<Cookie>)
    ensures
        match cookie_pair(trimmed(piece@)) {
            Some(p) => r matches Some(c) && cookie_view(c) == p,
            None => r is None,
        },
{
    let text = string_of(piece);
    let t = chars_of(trim(text.as_str()));
    let k = find_char(&t, '=');
    if k >= t.len() {
        return None;
    }
    let rest = slice_of(&t, k + 1, t.len());
    let j = find_char(&rest, '=');
    let name = slice_of(&t, 0, k);
    let value = slice_of(&rest, 0, if j < rest.len() { j } else { rest.len() });
    proof {
        assert(name@ =~= t@.take(k as int));
        assert(value@ =~= rest@.take(first_index(rest@, '=') as int));
    }
    Some(Cookie { name: string_of(&name), value: string_of(&value) })
}

/// The cookies of a `Cookie` header, `name=value` pairs separated by `;`, in order; a
/// piece with no `=` holds none.
pub fn cookies_from_header(header: &str) -> (r: Vec<Cookie>)
    ensures
        r@.map_values(|c: Cookie| cookie_view(c)) == pairs_of(pieces(header@, ';')),
{
    let cs = chars_of(header);
    let mut out: Vec<Cookie> = Vec::new();
    let mut cur: Vec<char> = Vec::new();
    let mut i: usize = 0;
    proof {
        assert(cs@.take(0) =~= Seq::<char>::empty());
        assert(pieces(cs@.take(0), ';').drop_last() =~= Seq::<Seq<char>>::empty());
        assert(out@.map_values(|c: Cookie| cookie_view(c)) =~= Seq::<(Seq<char>, Seq<char>)>::empty());
    }
    while i < cs.len()
        invariant
            i <= cs.len(),
            cs@ == header@,
            pieces(cs@.take(i as int), ';').len() >= 1,
            cur@ == pieces(cs@.take(i as int), ';').last(),
            out@.map_values(|c: Cookie| cookie_view(c)) == pairs_of(
                pieces(cs@.take(i as int), ';').drop_last(),
            ),
        decreases cs.len() - i,
    {
        let ghost before = pieces(cs@.take(i as int), ';');
        assert(cs@.take(i + 1).drop_last() =~= cs@.take(i as int));
        let c = cs[i];
        if c == ';' {
            let found = cookie_from_piece(&cur);
            match found {
                Some(k) => {
                    out.push(k);
                },
                None => {},
            }
            proof {
                let after = pieces(cs@.take(i + 1), ';');
                assert(after == before.push(seq![]));
                assert(after.drop_last() =~= before);
                assert(before.drop_last().push(before.last()) =~= before);
                assert(out@.map_values(|c: Cookie| cookie_view(c)) =~= pairs_of(after.drop_last()));
            }
            cur = Vec::new();
        } else {
            cur.push(c);
            proof {
                let after = pieces(cs@.take(i + 1), ';');
                assert(after.drop_last() =~= before.drop_last());
            }
        }
        i = i + 1;
    }
    let found = cookie_from_piece(&cur);
    match found {
        Some(k) => {
            out.push(k);
        },
        None => {},
    }
    proof {
        let all = pieces(cs@.take(i as int), ';');
        assert(cs@.take(i as int) =~= cs@);
        assert(all.drop_last().push(all.last()) =~= all);
        assert(out@.map_values(|c: Cookie| cookie_view(c)) =~= pairs_of(all));
    }
    out
}

} // verus!
