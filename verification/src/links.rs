//! Absolute URLs, as the `url` crate reads them, and the cookie store of
//! the HTTP client, which is bound to them.

use reqwest::cookie::Jar;
use url::Url;
use vstd::prelude::*;

verus! {

/// The URL of the `url` crate, taken as it is.
#[verifier::external_type_specification]
#[verifier::external_body]
pub struct ExUrl(Url);

/// The cookie store of the `reqwest` crate, taken as it is.
#[verifier::external_type_specification]
#[verifier::external_body]
pub struct ExJar(Jar);

/// The normal form of the absolute URL that `text` denotes; `None` where it
/// denotes none.
pub uninterp spec fn url_form(text: Seq<char>) -> Option<Seq<char>>;

/// A parsed URL. Its view is its normal form as text.
#[derive(Debug)]
pub struct Origin {
    text: String,
    url: Url,
}

impl View for Origin {
    type V = Seq<char>;

    closed spec fn view(&self) -> Seq<char> {
        self.text@
    }
}

impl Origin {
    /// The URL in its normal form.
    pub fn as_str(&self) -> (res: &str)
        ensures
            res@ == self@,
    {
        self.text.as_str()
    }
}

/// Calls `Url::parse` and, on the URL that it gives, `Url::as_str`: the
/// result holds the parsed URL and its serialization, or is `None` where the
/// crate refuses the text.
#[verifier::external_body]
pub(crate) fn parse_url(text: &str) -> (res: Option<Origin>)
    ensures
        match res {
            Some(origin) => url_form(text@) == Some(origin@),
            None => url_form(text@) is None,
        },
{
    Url::parse(text).ok().map(|url| Origin { text: url.as_str().to_owned(), url })
}

/// Calls `Jar::add_cookie_str`, which reads the `Set-Cookie` text as a
/// response from `origin` would carry it and stores what it finds. The store
/// is shared with the HTTP client and changes behind a shared reference, so
/// nothing is said here of what it holds afterwards.
#[verifier::external_body]
pub(crate) fn jar_add(jar: &Jar, cookie: &str, origin: &Origin) {
    jar.add_cookie_str(cookie, &origin.url)
}

/// Whether both texts denote a URL, and the same one.
pub open spec fn same_target(a: Seq<char>, b: Seq<char>) -> bool {
    url_form(a) is Some && url_form(a) == url_form(b)
}

/// Whether both texts denote a URL, and the same one.
pub fn is_same_target(a: &str, b: &str) -> (res: bool)
    ensures
        res == same_target(a@, b@),
{
    match parse_url(a) {
        Some(first) => match parse_url(b) {
            Some(second) => crate::json::str_eq(first.as_str(), second.as_str()),
            None => false,
        },
        None => false,
    }
}

} // verus!
