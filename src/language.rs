//! The language of the service's answers, and the addresses of its endpoints.

use vstd::prelude::*;

use crate::text::{chars_of, same_text};

verus! {

/// The language the service answers in.
#[derive(Debug, Clone, Copy, PartialEq, Eq, Structural)]
pub enum Language {
    English,
    French,
}

/// Where the service lives.
pub const DEFAULT_API_BASE_URL: &'static str = "https://montreal.lufa.com";

impl Language {
    pub open spec fn spec_code(self) -> Seq<char> {
        match self {
            Language::English => "en"@,
            Language::French => "fr"@,
        }
    }

    /// The code of the language in the service's paths: `en` or `fr`.
    pub fn code(self) -> (r: &'static str)
        ensures
            r@ == self.spec_code(),
    {
        match self {
            Language::English => "en",
            Language::French => "fr",
        }
    }

    /// The language whose code is `s`, if any.
    pub fn from_code(s: &str) -> (r: Option<Language>)
        ensures
            r matches Some(l) ==> l.spec_code() == s@,
            r is None ==> s@ != "en"@ && s@ != "fr"@,
    {
        if same_text(s, "en") {
            Some(Language::English)
        } else if same_text(s, "fr") {
            Some(Language::French)
        } else {
            None
        }
    }

    /// The code of the language, as a `String`.
    pub fn to_string(self) -> (r: String)
        ensures
            r@ == self.spec_code(),
    {
        self.code().to_owned()
    }
}

impl From<Language> for &'static str {
    fn from(l: Language) -> (r: &'static str) {
        match l {
            Language::English => "en",
            Language::French => "fr",
        }
    }
}

impl vstd::std_specs::convert::FromSpecImpl<Language> for &'static str {
    open spec fn obeys_from_spec() -> bool {
        true
    }

    open spec fn from_spec(l: Language) -> &'static str {
        match l {
            Language::English => "en",
            Language::French => "fr",
        }
    }
}

/// How many `/` open `s`.
pub open spec fn leading_slashes(s: Seq<char>) -> nat
    decreases s.len(),
{
    if s.len() > 0 && s[0] == '/' {
        1 + leading_slashes(s.drop_first())
    } else {
        0
    }
}

/// The address of `path` in the service, in language `l`.
pub open spec fn url_text(l: Language, path: Seq<char>) -> Seq<char> {
    DEFAULT_API_BASE_URL@ + "/"@ + l.spec_code() + "/"@ + path.subrange(
        leading_slashes(path) as int,
        path.len() as int,
    )
}

/// The address of `path` in the service, in language `l`: the base, the language code,
/// and the path without its leading slashes.
pub fn build_url(l: Language, path: &str) -> (r: String)
    ensures
        r@ == url_text(l, path@),
{
    let cs = chars_of(path);
    let mut k: usize = 0;
    assert(path@.subrange(0, path@.len() as int) =~= path@);
    while k < cs.len() && cs[k] == '/'
        invariant
            k <= cs.len(),
            cs@ == path@,
            leading_slashes(path@) == k + leading_slashes(path@.subrange(k as int, path@.len() as int)),
        decreases cs.len() - k,
    {
        assert(path@.subrange(k as int, path@.len() as int).drop_first() =~= path@.subrange(
            k + 1,
            path@.len() as int,
        ));
        k = k + 1;
    }
    let rest = path.substring_char(k, cs.len());
    let mut url = String::from_str(DEFAULT_API_BASE_URL);
    url.append("/");
    url.append(l.code());
    url.append("/");
    url.append(rest);
    url
}

} // verus!
