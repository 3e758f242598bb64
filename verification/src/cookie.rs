//! Turning a cookie as the solving service describes it into an entry for a
//! cookie store: the `Set-Cookie` text and the origin that the entry is bound
//! to.

use crate::error::FlaresolverrError;
use crate::json::{read_text, text_member, Json, JsonNumber};
use crate::links::{jar_add, parse_url, url_form, Origin};
use reqwest::cookie::Jar;
use chrono::{TimeZone, Utc};
use vstd::prelude::*;
use vstd::string::*;

verus! {

/// A cookie as the solving service describes it.
#[derive(Clone, Debug)]
pub struct CookieData {
    pub name: String,
    pub value: String,
    pub domain: String,
    pub path: String,
    /// Seconds since the epoch.
    pub expires: Option<i64>,
    pub http_only: bool,
    pub secure: bool,
    pub same_site: Option<String>,
}

/// What a [`CookieData`] holds, as plain values.
pub struct CookieView {
    pub name: Seq<char>,
    pub value: Seq<char>,
    pub domain: Seq<char>,
    pub path: Seq<char>,
    pub expires: Option<int>,
    pub http_only: bool,
    pub secure: bool,
    pub same_site: Option<Seq<char>>,
}

impl View for CookieData {
    type V = CookieView;

    open spec fn view(&self) -> CookieView {
        CookieView {
            name: self.name@,
            value: self.value@,
            domain: self.domain@,
            path: self.path@,
            expires: match self.expires {
                Some(e) => Some(e as int),
                None => None,
            },
            http_only: self.http_only,
            secure: self.secure,
            same_site: match self.same_site {
                Some(s) => Some(s@),
                None => None,
            },
        }
    }
}

/// The first and last second that a four-digit year holds: the start of year
/// 0 and the end of year 9999.
pub const FIRST_DATED_SECOND: i64 = -62_167_219_200;

pub const LAST_DATED_SECOND: i64 = 253_402_300_799;

/// Whether a date of years 0 to 9999 stands for `seconds`.
pub open spec fn dated(seconds: int) -> bool {
    FIRST_DATED_SECOND <= seconds <= LAST_DATED_SECOND
}

/// The RFC 2822 date and time, in UTC, of `seconds` after the epoch, such as
/// `Tue, 1 Jul 2003 10:52:37 +0000`.
pub uninterp spec fn rfc2822_text(seconds: int) -> Seq<char>;

/// Calls chrono's `Utc.timestamp_opt` and `DateTime::to_rfc2822`: the result
/// is the RFC 2822 text of the moment `seconds` after the epoch. The range
/// asked for is the one in which chrono has a date whose year RFC 2822 can
/// write.
#[verifier::external_body]
fn rfc2822_date(seconds: i64) -> (res: String)
    requires
        dated(seconds as int),
    ensures
        res@ == rfc2822_text(seconds as int),
{
    Utc.timestamp_opt(seconds, 0).unwrap().to_rfc2822()
}

/// A member that may be missing or null, and is otherwise a string. The
/// outer `None` stands for a member of another kind.
pub open spec fn optional_text_member(j: Json, key: Seq<char>) -> Option<Option<Seq<char>>> {
    match j.member(key) {
        None => Some(None),
        Some(Json::Null) => Some(None),
        Some(Json::Text(s)) => Some(Some(s@)),
        Some(_) => None,
    }
}

/// A member that may be missing or null, and is otherwise a number, read as
/// whole seconds. The outer `None` stands for a member of another kind.
pub open spec fn optional_whole_member(j: Json, key: Seq<char>) -> Option<Option<int>> {
    match j.member(key) {
        None => Some(None),
        Some(Json::Null) => Some(None),
        Some(Json::Number(n)) => Some(Some(n.whole())),
        Some(_) => None,
    }
}

/// A member that is false where it is missing, and is otherwise a boolean.
/// `None` stands for a member of another kind.
pub open spec fn flag_member(j: Json, key: Seq<char>) -> Option<bool> {
    match j.member(key) {
        None => Some(false),
        Some(Json::Bool(b)) => Some(b),
        Some(_) => None,
    }
}

/// Whether `j` describes a cookie: an object with `name`, `value`, `domain`
/// and `path` as strings, and `expires`, `httpOnly`, `secure` and `sameSite`
/// of their kinds where they are present.
pub open spec fn describes_cookie(j: Json) -> bool {
    &&& text_member(j, "name"@) is Some
    &&& text_member(j, "value"@) is Some
    &&& text_member(j, "domain"@) is Some
    &&& text_member(j, "path"@) is Some
    &&& optional_whole_member(j, "expires"@) is Some
    &&& flag_member(j, "httpOnly"@) is Some
    &&& flag_member(j, "secure"@) is Some
    &&& optional_text_member(j, "sameSite"@) is Some
}

/// The cookie that `j` describes.
pub open spec fn described_cookie(j: Json) -> CookieView
    recommends
        describes_cookie(j),
{
    CookieView {
        name: text_member(j, "name"@)->0,
        value: text_member(j, "value"@)->0,
        domain: text_member(j, "domain"@)->0,
        path: text_member(j, "path"@)->0,
        expires: optional_whole_member(j, "expires"@)->0,
        http_only: flag_member(j, "httpOnly"@)->0,
        secure: flag_member(j, "secure"@)->0,
        same_site: optional_text_member(j, "sameSite"@)->0,
    }
}

fn read_optional_text(j: &Json, key: &str) -> (res: Option<Option<String>>)
    ensures
        match res {
            Some(Some(s)) => optional_text_member(*j, key@) == Some(Some(s@)),
            Some(None) => optional_text_member(*j, key@) == Some(None::<Seq<char>>),
            None => optional_text_member(*j, key@) is None,
        },
{
    match j.get(key) {
        None => Some(None),
        Some(Json::Null) => Some(None),
        Some(Json::Text(s)) => Some(Some(s.clone())),
        Some(_) => None,
    }
}

fn read_optional_whole(j: &Json, key: &str) -> (res: Option<Option<i64>>)
    ensures
        match res {
            Some(Some(n)) => optional_whole_member(*j, key@) == Some(Some(n as int)),
            Some(None) => optional_whole_member(*j, key@) == Some(None::<int>),
            None => optional_whole_member(*j, key@) is None,
        },
{
    match j.get(key) {
        None => Some(None),
        Some(Json::Null) => Some(None),
        Some(Json::Number(n)) => Some(Some(n.to_whole())),
        Some(_) => None,
    }
}

fn read_flag(j: &Json, key: &str) -> (res: Option<bool>)
    ensures
        res == flag_member(*j, key@),
{
    match j.get(key) {
        None => Some(false),
        Some(Json::Bool(b)) => Some(*b),
        Some(_) => None,
    }
}

/// Reads a cookie out of its description.
pub fn decode_cookie(j: &Json) -> (res: Result<CookieData, FlaresolverrError>)
    ensures
        match res {
            Ok(cookie) => describes_cookie(*j) && cookie@ == described_cookie(*j),
            Err(e) => e == FlaresolverrError::CookieFormatError && !describes_cookie(*j),
        },
{
    let name = match read_text(j, "name") {
        Some(s) => s,
        None => return Err(FlaresolverrError::CookieFormatError),
    };
    let value = match read_text(j, "value") {
        Some(s) => s,
        None => return Err(FlaresolverrError::CookieFormatError),
    };
    let domain = match read_text(j, "domain") {
        Some(s) => s,
        None => return Err(FlaresolverrError::CookieFormatError),
    };
    let path = match read_text(j, "path") {
        Some(s) => s,
        None => return Err(FlaresolverrError::CookieFormatError),
    };
    let expires = match read_optional_whole(j, "expires") {
        Some(e) => e,
        None => return Err(FlaresolverrError::CookieFormatError),
    };
    let http_only = match read_flag(j, "httpOnly") {
        Some(b) => b,
        None => return Err(FlaresolverrError::CookieFormatError),
    };
    let secure = match read_flag(j, "secure") {
        Some(b) => b,
        None => return Err(FlaresolverrError::CookieFormatError),
    };
    let same_site = match read_optional_text(j, "sameSite") {
        Some(s) => s,
        None => return Err(FlaresolverrError::CookieFormatError),
    };
    Ok(CookieData { name, value, domain, path, expires, http_only, secure, same_site })
}

/// The `Set-Cookie` text of a cookie whose expiry, where it has one, is
/// written as `expiry`: `name=value`, then one attribute for each field that
/// is present.
pub open spec fn set_cookie_text(c: CookieView, expiry: Option<Seq<char>>) -> Seq<char> {
    let pair = c.name + "="@ + c.value;
    let with_path = if c.path.len() > 0 {
        pair + "; Path="@ + c.path
    } else {
        pair
    };
    let with_domain = if c.domain.len() > 0 {
        with_path + "; Domain="@ + c.domain
    } else {
        with_path
    };
    let with_secure = if c.secure {
        with_domain + "; Secure"@
    } else {
        with_domain
    };
    let with_http_only = if c.http_only {
        with_secure + "; HttpOnly"@
    } else {
        with_secure
    };
    let with_same_site = match c.same_site {
        Some(policy) => with_http_only + "; SameSite="@ + policy,
        None => with_http_only,
    };
    match expiry {
        Some(date) => with_same_site + "; Expires="@ + date,
        None => with_same_site,
    }
}

/// The domain without one leading dot.
pub open spec fn bare_domain(domain: Seq<char>) -> Seq<char> {
    if domain.len() > 0 && domain[0] == '.' {
        domain.skip(1)
    } else {
        domain
    }
}

/// The text of the HTTPS origin of a domain.
pub open spec fn origin_text(domain: Seq<char>) -> Seq<char> {
    "https://"@ + bare_domain(domain)
}

impl CookieData {
    /// Writes the `Set-Cookie` text from the cookie's fields and the text of
    /// its expiry date.
    pub fn assemble_set_cookie(&self, expiry: Option<&str>) -> (res: String)
        ensures
            res@ == set_cookie_text(
                self@,
                match expiry {
                    Some(date) => Some(date@),
                    None => None,
                },
            ),
    {
        let mut out = self.name.clone();
        out.append("=");
        out.append(self.value.as_str());
        if !self.path.as_str().is_empty() {
            out.append("; Path=");
            out.append(self.path.as_str());
        }
        if !self.domain.as_str().is_empty() {
            out.append("; Domain=");
            out.append(self.domain.as_str());
        }
        if self.secure {
            out.append("; Secure");
        }
        if self.http_only {
            out.append("; HttpOnly");
        }
        match &self.same_site {
            Some(policy) => {
                out.append("; SameSite=");
                out.append(policy.as_str());
            },
            None => {},
        }
        match expiry {
            Some(date) => {
                out.append("; Expires=");
                out.append(date);
            },
            None => {},
        }
        out
    }

    /// The `Set-Cookie` text of the cookie. It fails where the cookie has an
    /// expiry that no date of years 0 to 9999 stands for.
    pub fn to_set_cookie_string(&self) -> (res: Result<String, FlaresolverrError>)
        ensures
            match self@.expires {
                None => res is Ok && res->Ok_0@ == set_cookie_text(self@, None),
                Some(e) => if dated(e) {
                    res is Ok && res->Ok_0@ == set_cookie_text(self@, Some(rfc2822_text(e)))
                } else {
                    res == Err::<String, _>(FlaresolverrError::CookieFormatError)
                },
            },
    {
        match self.expires {
            None => Ok(self.assemble_set_cookie(None)),
            Some(e) => {
                if FIRST_DATED_SECOND <= e && e <= LAST_DATED_SECOND {
                    let date = rfc2822_date(e);
                    Ok(self.assemble_set_cookie(Some(date.as_str())))
                } else {
                    Err(FlaresolverrError::CookieFormatError)
                }
            },
        }
    }

    /// The origin that the cookie is bound to: `https://` and the domain
    /// without one leading dot, in the normal form of a URL. It fails where
    /// that text is no URL.
    pub fn binding_origin(&self) -> (res: Result<Origin, FlaresolverrError>)
        ensures
            match url_form(origin_text(self@.domain)) {
                Some(form) => res is Ok && res->Ok_0@ == form,
                None => res is Err && res->Err_0 == FlaresolverrError::UrlParseError,
            },
    {
        let text = https_origin(self.domain.as_str());
        match parse_url(text.as_str()) {
            Some(form) => Ok(form),
            None => Err(FlaresolverrError::UrlParseError),
        }
    }
}

/// What tells one entry of a cookie store from another.
pub struct CookieKey {
    pub name: Seq<char>,
    pub domain: Seq<char>,
    pub path: Seq<char>,
}

/// The key of the entry that a cookie is stored under.
pub open spec fn key_of(c: CookieView) -> CookieKey {
    CookieKey { name: c.name, domain: c.domain, path: c.path }
}

/// One write to a cookie store: the cookie's name, domain and path, by
/// which the store tells one entry from another, the `Set-Cookie` text and
/// the origin that the entry is bound to.
#[derive(Debug)]
pub struct CookieWrite {
    pub name: String,
    pub domain: String,
    pub path: String,
    pub cookie: String,
    pub origin: Origin,
}

/// What a [`CookieWrite`] holds, as plain values.
pub struct WriteView {
    pub key: CookieKey,
    pub cookie: Seq<char>,
    pub origin: Seq<char>,
}

impl View for CookieWrite {
    type V = WriteView;

    open spec fn view(&self) -> WriteView {
        WriteView {
            key: CookieKey { name: self.name@, domain: self.domain@, path: self.path@ },
            cookie: self.cookie@,
            origin: self.origin@,
        }
    }
}

/// The text of a cookie's expiry date, where it has an expiry.
pub open spec fn expiry_text(expires: Option<int>) -> Option<Seq<char>> {
    match expires {
        Some(e) => Some(rfc2822_text(e)),
        None => None,
    }
}

/// The store write that a cookie gives, or the reason why it gives none: an
/// expiry without a date comes before a domain without a URL.
pub open spec fn store_entry(c: CookieView) -> Result<WriteView, FlaresolverrError> {
    if c.expires is Some && !dated(c.expires->0) {
        Err(FlaresolverrError::CookieFormatError)
    } else {
        match url_form(origin_text(c.domain)) {
            Some(form) => Ok(
                WriteView {
                    key: key_of(c),
                    cookie: set_cookie_text(c, expiry_text(c.expires)),
                    origin: form,
                },
            ),
            None => Err(FlaresolverrError::UrlParseError),
        }
    }
}

/// The store write that a cookie's description gives: the description must
/// describe a cookie, and that cookie must give a write.
pub open spec fn parsed_cookie(j: Json) -> Result<WriteView, FlaresolverrError> {
    if describes_cookie(j) {
        store_entry(described_cookie(j))
    } else {
        Err(FlaresolverrError::CookieFormatError)
    }
}

impl CookieData {
    /// The write that puts the cookie into a store.
    pub fn to_store_entry(&self) -> (res: Result<CookieWrite, FlaresolverrError>)
        ensures
            match store_entry(self@) {
                Ok(w) => res is Ok && res->Ok_0@ == w,
                Err(e) => res is Err && res->Err_0 == e,
            },
    {
        let cookie = match self.to_set_cookie_string() {
            Ok(text) => text,
            Err(e) => return Err(e),
        };
        let origin = match self.binding_origin() {
            Ok(form) => form,
            Err(e) => return Err(e),
        };
        Ok(
            CookieWrite {
                name: self.name.clone(),
                domain: self.domain.clone(),
                path: self.path.clone(),
                cookie,
                origin,
            },
        )
    }
}

/// Reads a cookie out of its description and gives the write that puts it
/// into a store.
pub fn parse_cookie(cookie: &Json) -> (res: Result<CookieWrite, FlaresolverrError>)
    ensures
        match parsed_cookie(*cookie) {
            Ok(w) => res is Ok && res->Ok_0@ == w,
            Err(e) => res is Err && res->Err_0 == e,
        },
{
    match decode_cookie(cookie) {
        Ok(data) => data.to_store_entry(),
        Err(e) => Err(e),
    }
}

/// Writes `https://` and the domain without one leading dot.
pub fn https_origin(domain: &str) -> (res: String)
    ensures
        res@ == origin_text(domain@),
{
    let len = domain.unicode_len();
    let mut out = String::from_str("https://");
    if len > 0 && domain.get_char(0) == '.' {
        out.append(domain.substring_char(1, len));
    } else {
        out.append(domain);
    }
    out
}

/// The views of a list of cookies.
pub open spec fn cookie_views(cookies: Seq<CookieData>) -> Seq<CookieView> {
    cookies.map_values(|c: CookieData| c@)
}

/// The views of a list of writes.
pub open spec fn write_views(writes: Seq<CookieWrite>) -> Seq<WriteView> {
    writes.map_values(|w: CookieWrite| w@)
}

/// The store writes that a list of cookies gives, in the order of the
/// cookies, or the reason why the first cookie that gives none does not.
pub open spec fn store_entries(cookies: Seq<CookieView>) -> Result<Seq<WriteView>, FlaresolverrError>
    decreases cookies.len(),
{
    if cookies.len() == 0 {
        Ok(Seq::empty())
    } else {
        match store_entries(cookies.drop_last()) {
            Err(e) => Err(e),
            Ok(writes) => match store_entry(cookies.last()) {
                Err(e) => Err(e),
                Ok(w) => Ok(writes.push(w)),
            },
        }
    }
}

/// Where the first `i` cookies give no writes, all the cookies fail for the
/// same reason.
proof fn lemma_store_entries_fail_early(cookies: Seq<CookieView>, i: int)
    requires
        0 <= i <= cookies.len(),
        store_entries(cookies.take(i)) is Err,
    ensures
        store_entries(cookies) == store_entries(cookies.take(i)),
    decreases cookies.len() - i,
{
    if i == cookies.len() {
        assert(cookies.take(i) =~= cookies);
    } else {
        assert(cookies.take(i + 1).drop_last() =~= cookies.take(i));
        lemma_store_entries_fail_early(cookies, i + 1);
    }
}

/// The writes that put the cookies into a store, in the order of the
/// cookies.
pub fn to_store_entries(cookies: &Vec<CookieData>) -> (res: Result<
    Vec<CookieWrite>,
    FlaresolverrError,
>)
    ensures
        match store_entries(cookie_views(cookies@)) {
            Ok(writes) => res is Ok && write_views(res->Ok_0@) == writes,
            Err(e) => res is Err && res->Err_0 == e,
        },
{
    let ghost views = cookie_views(cookies@);
    let mut out: Vec<CookieWrite> = Vec::new();
    let mut i: usize = 0;
    assert(write_views(out@) =~= Seq::<WriteView>::empty());
    while i < cookies.len()
        invariant
            i <= cookies.len(),
            views == cookie_views(cookies@),
            store_entries(views.take(i as int)) == Ok::<Seq<WriteView>, FlaresolverrError>(
                write_views(out@),
            ),
        decreases cookies.len() - i,
    {
        proof {
            assert(views.take(i + 1).drop_last() =~= views.take(i as int));
            assert(views.take(i + 1).last() == cookies@[i as int]@);
        }
        match cookies[i].to_store_entry() {
            Ok(w) => {
                let ghost before = write_views(out@);
                out.push(w);
                assert(write_views(out@) =~= before.push(w@));
            },
            Err(e) => {
                proof {
                    lemma_store_entries_fail_early(views, i + 1);
                }
                return Err(e);
            },
        }
        i += 1;
    }
    assert(views.take(cookies.len() as int) =~= views);
    Ok(out)
}

/// The entries of a store after the writes were made to it one after the
/// other: one entry for each name, domain and path, and a later write in
/// place of an earlier one.
pub open spec fn stored(store: Map<CookieKey, WriteView>, writes: Seq<WriteView>) -> Map<
    CookieKey,
    WriteView,
>
    decreases writes.len(),
{
    if writes.len() == 0 {
        store
    } else {
        stored(store, writes.drop_last()).insert(writes.last().key, writes.last())
    }
}

/// The last of the writes with the key `k`.
pub open spec fn last_with(writes: Seq<WriteView>, k: CookieKey) -> Option<WriteView>
    decreases writes.len(),
{
    if writes.len() == 0 {
        None
    } else if writes.last().key == k {
        Some(writes.last())
    } else {
        last_with(writes.drop_last(), k)
    }
}

/// A store after writes holds, under each key, the last write with that
/// key, and what it held before where none was made.
pub proof fn lemma_stored(store: Map<CookieKey, WriteView>, writes: Seq<WriteView>)
    ensures
        forall|k: CookieKey| #[trigger]
            stored(store, writes).dom().contains(k) <==> store.dom().contains(k) || last_with(
                writes,
                k,
            ) is Some,
        forall|k: CookieKey| #[trigger]
            stored(store, writes).dom().contains(k) ==> stored(store, writes)[k] == match last_with(
                writes,
                k,
            ) {
                Some(w) => w,
                None => store[k],
            },
    decreases writes.len(),
{
    if writes.len() > 0 {
        lemma_stored(store, writes.drop_last());
        let rest = stored(store, writes.drop_last());
        let key = writes.last().key;
        assert forall|k: CookieKey| #[trigger]
            stored(store, writes).dom().contains(k) <==> store.dom().contains(k) || last_with(
                writes,
                k,
            ) is Some by {
            assert(stored(store, writes).dom().contains(k) <==> k == key || rest.dom().contains(k));
        }
        assert forall|k: CookieKey| #[trigger]
            stored(store, writes).dom().contains(k) implies stored(store, writes)[k]
            == match last_with(writes, k) {
            Some(w) => w,
            None => store[k],
        } by {
            if k != key {
                assert(rest.dom().contains(k));
                assert(stored(store, writes)[k] == rest[k]);
            }
        }
    }
}

/// Making first some writes and then others gives what making them all in
/// one go gives.
pub proof fn lemma_stored_in_turn(
    store: Map<CookieKey, WriteView>,
    first: Seq<WriteView>,
    then: Seq<WriteView>,
)
    ensures
        stored(store, first + then) == stored(stored(store, first), then),
    decreases then.len(),
{
    if then.len() == 0 {
        assert(first + then =~= first);
    } else {
        lemma_stored_in_turn(store, first, then.drop_last());
        assert((first + then).drop_last() =~= first + then.drop_last());
        assert((first + then).last() == then.last());
    }
}

/// Making the same writes to a store a second time changes nothing: the
/// store has one entry for each name, domain and path, as after the first
/// time.
pub proof fn law_store_twice(store: Map<CookieKey, WriteView>, writes: Seq<WriteView>)
    ensures
        stored(stored(store, writes), writes) == stored(store, writes),
{
    lemma_stored(store, writes);
    lemma_stored(stored(store, writes), writes);
    assert(stored(stored(store, writes), writes) =~= stored(store, writes));
}

/// The cookie store of the HTTP client, with a record of the writes made
/// to it through this handle.
pub struct CookieJar<'a> {
    jar: &'a Jar,
    log: Ghost<Seq<WriteView>>,
}

impl<'a> CookieJar<'a> {
    /// The writes made through this handle, in their order.
    pub closed spec fn written(&self) -> Seq<WriteView> {
        self.log@
    }

    /// What a store that was empty holds of the writes made through this
    /// handle, where it keeps one entry for each name, domain and path.
    pub open spec fn entries(&self) -> Map<CookieKey, WriteView> {
        stored(Map::empty(), self.written())
    }

    /// A handle on `jar` through which nothing has been written.
    pub fn new(jar: &'a Jar) -> (res: CookieJar<'a>)
        ensures
            res.written() == Seq::<WriteView>::empty(),
    {
        CookieJar { jar, log: Ghost(Seq::empty()) }
    }

    /// Hands one write to the store.
    pub fn add(&mut self, write: &CookieWrite)
        ensures
            final(self).written() == old(self).written().push(write@),
    {
        jar_add(self.jar, write.cookie.as_str(), &write.origin);
        self.log = Ghost(self.log@.push(write@));
    }

    /// Hands each write to the store, in order.
    pub fn add_all(&mut self, writes: &Vec<CookieWrite>)
        ensures
            final(self).written() == old(self).written() + write_views(writes@),
    {
        let ghost before = self.written();
        let mut i: usize = 0;
        assert(self.written() =~= before + write_views(writes@).take(0));
        while i < writes.len()
            invariant
                i <= writes.len(),
                self.written() == before + write_views(writes@).take(i as int),
            decreases writes.len() - i,
        {
            self.add(&writes[i]);
            assert(self.written() =~= before + write_views(writes@).take(i + 1));
            i += 1;
        }
        assert(write_views(writes@).take(writes.len() as int) =~= write_views(writes@));
    }
}

/// A handle through which the same writes are made a second time stands
/// for the same entries as after the first time: no name, domain and path
/// has a second entry.
pub proof fn law_same_writes_twice(before: CookieJar, once: CookieJar, twice: CookieJar, writes: Seq<WriteView>)
    requires
        once.written() == before.written() + writes,
        twice.written() == once.written() + writes,
    ensures
        twice.entries() == once.entries(),
{
    let base = Map::<CookieKey, WriteView>::empty();
    lemma_stored_in_turn(base, before.written(), writes);
    lemma_stored_in_turn(base, once.written(), writes);
    law_store_twice(stored(base, before.written()), writes);
}

} // verus!
