//! The protocol of the challenge-solving service: the three requests that
//! the client sends, and the reading of a solve's answer.

use crate::cookie::{
    cookie_views, decode_cookie, described_cookie, describes_cookie, CookieData, CookieView,
};
use crate::error::FlaresolverrError;
use crate::json::{Json, JsonNumber};
use vstd::prelude::*;
use vstd::string::*;

verus! {

/// The time that the service is given for one solve, in milliseconds.
pub const SOLVE_BUDGET_MS: u64 = 60000;

/// The name of the session that the client opens on the service.
pub fn session_name() -> (res: &'static str)
    ensures
        res@ == "forum-stream"@,
{
    "forum-stream"
}

/// Whether `j` is the object with exactly the member `cmd`, a string.
pub open spec fn is_command(j: Json, cmd: Seq<char>) -> bool {
    &&& j matches Json::Object(members)
    &&& members@.len() == 1
    &&& members@[0].0@ == "cmd"@
    &&& members@[0].1.text() == Some(cmd)
}

/// Whether `j` is the object with exactly the members `cmd` and `second`,
/// in this order, both strings.
pub open spec fn is_command_with(j: Json, cmd: Seq<char>, second: Seq<char>, value: Seq<char>) -> bool {
    &&& j matches Json::Object(members)
    &&& members@.len() == 2
    &&& members@[0].0@ == "cmd"@
    &&& members@[0].1.text() == Some(cmd)
    &&& members@[1].0@ == second
    &&& members@[1].1.text() == Some(value)
}

/// Whether `j` is the request for a solve of `url`: the members `cmd`, `url`
/// and `maxTimeout`, in this order.
pub open spec fn is_solve_request(j: Json, url: Seq<char>) -> bool {
    &&& j matches Json::Object(members)
    &&& members@.len() == 3
    &&& members@[0].0@ == "cmd"@
    &&& members@[0].1.text() == Some("request.get"@)
    &&& members@[1].0@ == "url"@
    &&& members@[1].1.text() == Some(url)
    &&& members@[2].0@ == "maxTimeout"@
    &&& members@[2].1 == Json::Number(JsonNumber::PosInt(SOLVE_BUDGET_MS))
}

fn text_pair(name: &str, value: &str) -> (res: (String, Json))
    ensures
        res.0@ == name@,
        res.1.text() == Some(value@),
{
    (name.to_owned(), Json::Text(value.to_owned()))
}

/// The request that opens the session `name`.
pub fn create_session_request(name: &str) -> (res: Json)
    ensures
        is_command_with(res, "sessions.create"@, "session"@, name@),
{
    let mut members: Vec<(String, Json)> = Vec::new();
    members.push(text_pair("cmd", "sessions.create"));
    members.push(text_pair("session", name));
    Json::Object(members)
}

/// The request that lists the sessions.
pub fn list_sessions_request() -> (res: Json)
    ensures
        is_command(res, "sessions.list"@),
{
    let mut members: Vec<(String, Json)> = Vec::new();
    members.push(text_pair("cmd", "sessions.list"));
    Json::Object(members)
}

/// The request for a solve of `url`, with the fixed budget.
pub fn solve_request(url: &str) -> (res: Json)
    ensures
        is_solve_request(res, url@),
{
    let mut members: Vec<(String, Json)> = Vec::new();
    members.push(text_pair("cmd", "request.get"));
    members.push(text_pair("url", url));
    members.push(("maxTimeout".to_owned(), Json::Number(JsonNumber::PosInt(SOLVE_BUDGET_MS))));
    Json::Object(members)
}

/// What a solve gives: the cookies in the order of the answer, and the user
/// agent that the service solved the challenge with.
#[derive(Clone, Debug)]
pub struct SolveResult {
    pub cookies: Vec<CookieData>,
    pub user_agent: String,
}

/// What a [`SolveResult`] holds, as plain values.
pub struct SolveView {
    pub cookies: Seq<CookieView>,
    pub user_agent: Seq<char>,
}

impl View for SolveResult {
    type V = SolveView;

    open spec fn view(&self) -> SolveView {
        SolveView {
            cookies: cookie_views(self.cookies@),
            user_agent: self.user_agent@,
        }
    }
}

/// Whether every one of `items` describes a cookie.
pub open spec fn all_describe_cookies(items: Seq<Json>) -> bool {
    forall|i: int| 0 <= i < items.len() ==> describes_cookie(#[trigger] items[i])
}

/// What the answer to a solve gives. The members are looked for in this
/// order, and the first that fails decides: `solution`; its `cookies`, which
/// must be an array of cookie descriptions; its `userAgent`, a string.
pub open spec fn solution_of(response: Json) -> Result<SolveView, FlaresolverrError> {
    match response.member("solution"@) {
        None => Err(FlaresolverrError::MissingSolution),
        Some(solution) => match solution.member("cookies"@) {
            None => Err(FlaresolverrError::MissingCookie),
            Some(cookies) => match cookies.elements() {
                None => Err(FlaresolverrError::CookiesNotAnArray),
                Some(items) => if !all_describe_cookies(items) {
                    Err(FlaresolverrError::CookieFormatError)
                } else {
                    match solution.member("userAgent"@) {
                        None => Err(FlaresolverrError::MissingUserAgent),
                        Some(agent) => match agent.text() {
                            None => Err(FlaresolverrError::MissingUserAgent),
                            Some(text) => Ok(
                                SolveView {
                                    cookies: items.map_values(|j: Json| described_cookie(j)),
                                    user_agent: text,
                                },
                            ),
                        },
                    }
                },
            },
        },
    }
}

/// Reads every cookie description of `items`, in order.
pub fn decode_cookies(items: &Vec<Json>) -> (res: Result<Vec<CookieData>, FlaresolverrError>)
    ensures
        match res {
            Ok(cookies) => all_describe_cookies(items@) && cookies@.map_values(|c: CookieData| c@)
                == items@.map_values(|j: Json| described_cookie(j)),
            Err(e) => e == FlaresolverrError::CookieFormatError && !all_describe_cookies(items@),
        },
{
    let mut out: Vec<CookieData> = Vec::new();
    let mut i: usize = 0;
    while i < items.len()
        invariant
            i <= items.len(),
            out@.len() == i,
            forall|k: int| 0 <= k < i ==> describes_cookie(#[trigger] items@[k]),
            forall|k: int| 0 <= k < i ==> (#[trigger] out@[k])@ == described_cookie(items@[k]),
        decreases items.len() - i,
    {
        match decode_cookie(&items[i]) {
            Ok(cookie) => out.push(cookie),
            Err(e) => {
                assert(!describes_cookie(items@[i as int]));
                return Err(e);
            },
        }
        i += 1;
    }
    assert(out@.map_values(|c: CookieData| c@) =~= items@.map_values(
        |j: Json| described_cookie(j),
    ));
    Ok(out)
}

/// Reads the answer to a solve.
pub fn decode_solution(response: &Json) -> (res: Result<SolveResult, FlaresolverrError>)
    ensures
        match solution_of(*response) {
            Ok(solved) => res is Ok && res->Ok_0@ == solved,
            Err(e) => res is Err && res->Err_0 == e,
        },
{
    let solution = match response.get("solution") {
        Some(j) => j,
        None => return Err(FlaresolverrError::MissingSolution),
    };
    let listed = match solution.get("cookies") {
        Some(j) => j,
        None => return Err(FlaresolverrError::MissingCookie),
    };
    let items = match listed.as_array() {
        Some(items) => items,
        None => return Err(FlaresolverrError::CookiesNotAnArray),
    };
    let cookies = match decode_cookies(items) {
        Ok(cookies) => cookies,
        Err(e) => return Err(e),
    };
    let agent = match solution.get("userAgent") {
        Some(j) => j,
        None => return Err(FlaresolverrError::MissingUserAgent),
    };
    let user_agent = match agent.as_str() {
        Some(text) => text.to_owned(),
        None => return Err(FlaresolverrError::MissingUserAgent),
    };
    Ok(SolveResult { cookies, user_agent })
}

/// An answer whose solution has no `cookies` member, or one that is not an
/// array, gives no result: the solve fails with `MissingCookie` in the first
/// case and with `CookiesNotAnArray` in the second.
pub proof fn law_solution_needs_cookie_array(response: Json)
    requires
        response.member("solution"@) is Some,
        match response.member("solution"@)->0.member("cookies"@) {
            None => true,
            Some(cookies) => cookies.elements() is None,
        },
    ensures
        solution_of(response) == Err::<SolveView, _>(
            if response.member("solution"@)->0.member("cookies"@) is None {
                FlaresolverrError::MissingCookie
            } else {
                FlaresolverrError::CookiesNotAnArray
            },
        ),
{
}

} // verus!
