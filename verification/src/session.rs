//! The session state that a solve leaves behind: the cache of headers that
//! every later request is sent with.

use crate::cookie::{
    store_entries, to_store_entries, write_views, CookieJar, CookieWrite, WriteView,
};
use crate::error::FlaresolverrError;
use crate::headers::{
    empty_headers, grouped, header_entries, header_key, header_pairs,
    header_present, header_put, is_header_name, is_header_value, no_entries, pair_views, well_formed_pairs, Entries,
    HeaderPair, HeaderPut, PairView, SURE_ROOM,
};
use crate::solver::{SolveResult, SolveView};
use http::header::{HeaderMap, HeaderValue};
use vstd::prelude::*;
use vstd::string::*;
use vstd::utf8::*;

verus! {

/// The bytes of a text.
pub open spec fn bytes_of(text: Seq<char>) -> Seq<u8> {
    encode_utf8(text)
}

/// The entries with `value` for `key` where they hold nothing for it, and
/// unchanged where they do.
pub open spec fn defaulted(entries: Entries, key: Seq<char>, value: Seq<u8>) -> Entries {
    if entries.dom().contains(key) {
        entries
    } else {
        entries.insert(key, seq![value])
    }
}

/// The number of headers that a solve writes.
pub const MERGED_NAMES: usize = 8;

/// The entries after the first `k` of the writes of a solve with the user
/// agent `agent`. The writes, in their order: the user agent; the five
/// navigation headers `accept`, `accept-language`, `accept-encoding`,
/// `connection` and `referer`, each only where the entries hold none; the
/// two fetch-metadata headers.
pub open spec fn merged_upto(entries: Entries, agent: Seq<u8>, k: nat) -> Entries {
    let with_agent = entries.insert("user-agent"@, seq![agent]);
    let with_accept = defaulted(
        with_agent,
        "accept"@,
        bytes_of("text/html,application/xhtml+xml,application/xml;q=0.9,*/*;q=0.8"@),
    );
    let with_language = defaulted(with_accept, "accept-language"@, bytes_of("en-US,en;q=0.9"@));
    let with_encoding = defaulted(
        with_language,
        "accept-encoding"@,
        bytes_of("gzip, deflate, br"@),
    );
    let with_connection = defaulted(with_encoding, "connection"@, bytes_of("keep-alive"@));
    let with_referer = defaulted(with_connection, "referer"@, bytes_of("https://example.com/"@));
    let with_mode = with_referer.insert("sec-fetch-mode"@, seq![bytes_of("navigate"@)]);
    let with_site = with_mode.insert("sec-fetch-site"@, seq![bytes_of("none"@)]);
    if k == 0 {
        entries
    } else if k == 1 {
        with_agent
    } else if k == 2 {
        with_accept
    } else if k == 3 {
        with_language
    } else if k == 4 {
        with_encoding
    } else if k == 5 {
        with_connection
    } else if k == 6 {
        with_referer
    } else if k == 7 {
        with_mode
    } else {
        with_site
    }
}

/// The header cache after a solve with the user agent `agent`. The user
/// agent and the two fetch-metadata headers are set whatever the cache
/// held; each of the five navigation headers is set only where the cache
/// held none.
pub open spec fn merged(entries: Entries, agent: Seq<u8>) -> Entries {
    merged_upto(entries, agent, MERGED_NAMES as nat)
}

/// The names of the headers that a session cache can hold.
pub open spec fn session_names() -> Set<Seq<char>> {
    set![
        "user-agent"@,
        "accept"@,
        "accept-language"@,
        "accept-encoding"@,
        "connection"@,
        "referer"@,
        "sec-fetch-mode"@,
        "sec-fetch-site"@,
    ]
}

/// Whether the entries can be those of a session cache: headers of the
/// session only, each with one value.
pub open spec fn session_entries(entries: Entries) -> bool {
    &&& entries.dom().subset_of(session_names())
    &&& forall|k: Seq<char>| entries.dom().contains(k) ==> (#[trigger] entries[k]).len() == 1
}

/// A name of small letters and hyphens.
pub open spec fn is_plain_name(name: Seq<char>) -> bool {
    &&& 1 <= name.len() <= 64
    &&& forall|i: int| 0 <= i < name.len() ==> 'a' <= #[trigger] name[i] <= 'z' || name[i] == '-'
}

/// A text of printable ASCII characters.
pub open spec fn is_plain_text(text: Seq<char>) -> bool {
    forall|i: int| 0 <= i < text.len() ==> ' ' <= #[trigger] text[i] <= '~'
}

/// A name of small letters and hyphens names a header and is its own key.
pub proof fn lemma_plain_name(name: Seq<char>)
    requires
        is_plain_name(name),
    ensures
        is_header_name(name),
        header_key(name) == name,
{
    assert forall|i: int| 0 <= i < name.len() implies crate::headers::is_name_char(
        #[trigger] name[i],
    ) by {}
    assert(header_key(name) =~= name);
}

/// The bytes of a text of printable ASCII characters can be a header's
/// value.
pub proof fn lemma_plain_text(text: Seq<char>)
    requires
        is_plain_text(text),
    ensures
        is_header_value(bytes_of(text)),
{
    assert(is_ascii_chars(text));
    is_ascii_chars_encode_utf8(text);
    assert forall|i: int| 0 <= i < bytes_of(text).len() implies crate::headers::is_value_byte(
        #[trigger] bytes_of(text)[i],
    ) by {
        assert(text[i] as u8 == bytes_of(text)[i]);
    }
}

/// The eight names of the session are plain names, each different from the
/// others.
pub proof fn lemma_session_names()
    ensures
        is_plain_name("user-agent"@),
        is_plain_name("accept"@),
        is_plain_name("accept-language"@),
        is_plain_name("accept-encoding"@),
        is_plain_name("connection"@),
        is_plain_name("referer"@),
        is_plain_name("sec-fetch-mode"@),
        is_plain_name("sec-fetch-site"@),
        session_names().finite(),
        session_names().len() <= 8,
{
    reveal_strlit("user-agent");
    reveal_strlit("accept");
    reveal_strlit("accept-language");
    reveal_strlit("accept-encoding");
    reveal_strlit("connection");
    reveal_strlit("referer");
    reveal_strlit("sec-fetch-mode");
    reveal_strlit("sec-fetch-site");
}

/// The seven values that a solve writes by itself can be header values.
pub proof fn lemma_session_values()
    ensures
        is_header_value(
            bytes_of("text/html,application/xhtml+xml,application/xml;q=0.9,*/*;q=0.8"@),
        ),
        is_header_value(bytes_of("en-US,en;q=0.9"@)),
        is_header_value(bytes_of("gzip, deflate, br"@)),
        is_header_value(bytes_of("keep-alive"@)),
        is_header_value(bytes_of("https://example.com/"@)),
        is_header_value(bytes_of("navigate"@)),
        is_header_value(bytes_of("none"@)),
{
    reveal_strlit("text/html,application/xhtml+xml,application/xml;q=0.9,*/*;q=0.8");
    reveal_strlit("en-US,en;q=0.9");
    reveal_strlit("gzip, deflate, br");
    reveal_strlit("keep-alive");
    reveal_strlit("https://example.com/");
    reveal_strlit("navigate");
    reveal_strlit("none");
    lemma_plain_text("text/html,application/xhtml+xml,application/xml;q=0.9,*/*;q=0.8"@);
    lemma_plain_text("en-US,en;q=0.9"@);
    lemma_plain_text("gzip, deflate, br"@);
    lemma_plain_text("keep-alive"@);
    lemma_plain_text("https://example.com/"@);
    lemma_plain_text("navigate"@);
    lemma_plain_text("none"@);
}

/// Whether a header map with these entries is sure to take all that a
/// solve writes.
pub open spec fn has_room(entries: Entries) -> bool {
    entries.dom().finite() && entries.dom().len() + MERGED_NAMES < SURE_ROOM
}

/// Gives a header its one value, unless the map takes no more.
fn set_header(headers: &mut HeaderMap<HeaderValue>, name: &str, value: &[u8]) -> (res: bool)
    requires
        is_plain_name(name@),
        is_header_value(value@),
    ensures
        header_entries(*final(headers)) == if res {
            header_entries(*old(headers)).insert(name@, seq![value@])
        } else {
            header_entries(*old(headers))
        },
        !res ==> header_entries(*old(headers)).dom().len() >= SURE_ROOM,
        header_entries(*old(headers)).dom().finite() ==> {
            &&& header_entries(*final(headers)).dom().finite()
            &&& header_entries(*final(headers)).dom().len() <= header_entries(
                *old(headers),
            ).dom().len() + 1
        },
{
    proof {
        lemma_plain_name(name@);
    }
    match header_put(headers, name, value) {
        HeaderPut::Stored => true,
        _ => false,
    }
}

/// Gives a header a value where it has none, unless the map takes no more.
fn default_header(headers: &mut HeaderMap<HeaderValue>, name: &str, value: &[u8]) -> (res: bool)
    requires
        is_plain_name(name@),
        is_header_value(value@),
    ensures
        header_entries(*final(headers)) == if res {
            defaulted(header_entries(*old(headers)), name@, value@)
        } else {
            header_entries(*old(headers))
        },
        !res ==> header_entries(*old(headers)).dom().len() >= SURE_ROOM,
        header_entries(*old(headers)).dom().finite() ==> {
            &&& header_entries(*final(headers)).dom().finite()
            &&& header_entries(*final(headers)).dom().len() <= header_entries(
                *old(headers),
            ).dom().len() + 1
        },
{
    proof {
        lemma_plain_name(name@);
    }
    if header_present(headers, name) {
        true
    } else {
        set_header(headers, name, value)
    }
}

/// Whether the bytes can be the value of a header.
pub fn can_be_value(value: &[u8]) -> (res: bool)
    ensures
        res == is_header_value(value@),
{
    let mut i: usize = 0;
    while i < value.len()
        invariant
            i <= value.len(),
            forall|k: int| 0 <= k < i ==> crate::headers::is_value_byte(#[trigger] value@[k]),
        decreases value.len() - i,
    {
        let b = value[i];
        if !(b >= 32 && b != 127 || b == 9) {
            return false;
        }
        i += 1;
    }
    true
}

/// How taking a user agent into a header map ended.
#[derive(Clone, Copy, Debug, PartialEq, Eq, Structural)]
pub enum Merge {
    /// The map holds the user agent and what goes with it.
    Merged,
    /// The user agent cannot be a header's value; the map is as it was.
    BadAgent,
    /// The map took no more: it holds the first writes of the solve, up to
    /// the one that it refused, and has no room left.
    NoRoom,
}

/// Whether `after` can be what a map that held `before` holds when taking
/// the user agent `agent` into it ended with `outcome`.
pub open spec fn merge_gives(before: Entries, agent: Seq<u8>, outcome: Merge, after: Entries) -> bool {
    match outcome {
        Merge::BadAgent => !is_header_value(agent) && after == before,
        Merge::Merged => is_header_value(agent) && after == merged(before, agent),
        Merge::NoRoom => {
            &&& is_header_value(agent)
            &&& after.dom().len() >= SURE_ROOM
            &&& exists|k: nat|
                k < MERGED_NAMES && after == #[trigger] merged_upto(before, agent, k)
        },
    }
}

/// Takes the user agent of a solve into a header map, with the headers that
/// go with it: the user agent and the two fetch-metadata headers replace
/// what the map held, each of the five navigation headers is written only
/// where the map holds none. A user agent that cannot be a header's value
/// is refused before anything is written. The writes end early only where
/// the map takes no more, which a map with room never does.
pub fn merge_headers(headers: &mut HeaderMap<HeaderValue>, user_agent: &str) -> (res: Merge)
    ensures
        merge_gives(
            header_entries(*old(headers)),
            bytes_of(user_agent@),
            res,
            header_entries(*final(headers)),
        ),
        has_room(header_entries(*old(headers))) ==> res != Merge::NoRoom,
{
    let ghost before = header_entries(*headers);
    let ghost agent = bytes_of(user_agent@);
    proof {
        lemma_session_names();
        lemma_session_values();
    }
    if !can_be_value(user_agent.as_bytes()) {
        return Merge::BadAgent;
    }
    if !set_header(headers, "user-agent", user_agent.as_bytes()) {
        assert(header_entries(*headers) == merged_upto(before, agent, 0));
        return Merge::NoRoom;
    }
    if !default_header(
        headers,
        "accept",
        "text/html,application/xhtml+xml,application/xml;q=0.9,*/*;q=0.8".as_bytes(),
    ) {
        assert(header_entries(*headers) == merged_upto(before, agent, 1));
        return Merge::NoRoom;
    }
    if !default_header(headers, "accept-language", "en-US,en;q=0.9".as_bytes()) {
        assert(header_entries(*headers) == merged_upto(before, agent, 2));
        return Merge::NoRoom;
    }
    if !default_header(headers, "accept-encoding", "gzip, deflate, br".as_bytes()) {
        assert(header_entries(*headers) == merged_upto(before, agent, 3));
        return Merge::NoRoom;
    }
    if !default_header(headers, "connection", "keep-alive".as_bytes()) {
        assert(header_entries(*headers) == merged_upto(before, agent, 4));
        return Merge::NoRoom;
    }
    if !default_header(headers, "referer", "https://example.com/".as_bytes()) {
        assert(header_entries(*headers) == merged_upto(before, agent, 5));
        return Merge::NoRoom;
    }
    if !set_header(headers, "sec-fetch-mode", "navigate".as_bytes()) {
        assert(header_entries(*headers) == merged_upto(before, agent, 6));
        return Merge::NoRoom;
    }
    if !set_header(headers, "sec-fetch-site", "none".as_bytes()) {
        assert(header_entries(*headers) == merged_upto(before, agent, 7));
        return Merge::NoRoom;
    }
    assert(header_entries(*headers) == merged_upto(before, agent, 8));
    Merge::Merged
}

/// A solve leaves the entries of a session as entries of a session.
pub proof fn lemma_merged_session(entries: Entries, agent: Seq<u8>)
    requires
        session_entries(entries),
    ensures
        session_entries(merged(entries, agent)),
{
}

/// The headers of a request after the cache was laid over them: a header
/// that the cache holds has the cached value alone, every other header is as
/// the request had it.
pub open spec fn overlaid(request: Entries, cache: Entries) -> Entries {
    Map::new(
        |k: Seq<char>| request.dom().contains(k) || cache.dom().contains(k),
        |k: Seq<char>|
            if cache.dom().contains(k) {
                seq![cache[k].last()]
            } else {
                request[k]
            },
    )
}

/// Whether a request's headers are sure to take all of the cache.
pub open spec fn fits(request: Entries, cache: Entries) -> bool {
    &&& request.dom().finite()
    &&& request.dom().len() + cache.dom().len() < SURE_ROOM
}

/// The names that the first `i` pairs give are names of all the pairs.
proof fn lemma_grouped_prefix(pairs: Seq<PairView>, i: int)
    requires
        0 <= i <= pairs.len(),
    ensures
        grouped(pairs.take(i)).dom().subset_of(grouped(pairs).dom()),
    decreases pairs.len() - i,
{
    if i == pairs.len() {
        assert(pairs.take(i) =~= pairs);
    } else {
        lemma_grouped_prefix(pairs, i + 1);
        assert(pairs.take(i + 1).drop_last() =~= pairs.take(i));
    }
}

/// Every name that pairs give has a value.
proof fn lemma_grouped_nonempty(pairs: Seq<PairView>)
    ensures
        forall|k: Seq<char>|
            grouped(pairs).dom().contains(k) ==> (#[trigger] grouped(pairs)[k]).len() >= 1,
    decreases pairs.len(),
{
    if pairs.len() > 0 {
        lemma_grouped_nonempty(pairs.drop_last());
        let rest = grouped(pairs.drop_last());
        assert forall|k: Seq<char>| grouped(pairs).dom().contains(k) implies (#[trigger] grouped(
            pairs,
        )[k]).len() >= 1 by {
            if k != pairs.last().name {
                assert(rest.dom().contains(k));
                assert(rest[k].len() >= 1);
            }
        }
    }
}

/// The values that the first `i` pairs give to a name are the first of
/// those that all the pairs give to it.
proof fn lemma_grouped_grows(pairs: Seq<PairView>, i: int)
    requires
        0 <= i <= pairs.len(),
    ensures
        forall|k: Seq<char>| #[trigger]
            grouped(pairs.take(i)).dom().contains(k) ==> {
                &&& grouped(pairs).dom().contains(k)
                &&& 1 <= grouped(pairs.take(i))[k].len() <= grouped(pairs)[k].len()
                &&& grouped(pairs.take(i))[k][0] == grouped(pairs)[k][0]
            },
    decreases pairs.len() - i,
{
    lemma_grouped_nonempty(pairs.take(i));
    if i == pairs.len() {
        assert(pairs.take(i) =~= pairs);
    } else {
        lemma_grouped_grows(pairs, i + 1);
        assert(pairs.take(i + 1).drop_last() =~= pairs.take(i));
        let small = grouped(pairs.take(i));
        let next = grouped(pairs.take(i + 1));
        assert forall|k: Seq<char>| #[trigger] small.dom().contains(k) implies {
            &&& grouped(pairs).dom().contains(k)
            &&& 1 <= small[k].len() <= grouped(pairs)[k].len()
            &&& small[k][0] == grouped(pairs)[k][0]
        } by {
            assert(small[k].len() >= 1);
            assert(next.dom().contains(k));
            assert(next[k].len() >= small[k].len());
            assert(next[k][0] == small[k][0]);
        }
    }
}

/// Where every name has one value among all the pairs, what the first `i`
/// pairs give is part of what all give, and has one value for each name.
proof fn lemma_grouped_part(pairs: Seq<PairView>, i: int)
    requires
        0 <= i <= pairs.len(),
        forall|k: Seq<char>|
            grouped(pairs).dom().contains(k) ==> (#[trigger] grouped(pairs)[k]).len() == 1,
    ensures
        grouped(pairs.take(i)).submap_of(grouped(pairs)),
        forall|k: Seq<char>|
            grouped(pairs.take(i)).dom().contains(k) ==> (#[trigger] grouped(pairs.take(i))[k]).len()
                == 1,
{
    lemma_grouped_grows(pairs, i);
    let part = grouped(pairs.take(i));
    assert forall|k: Seq<char>| #[trigger] part.dom().contains(k) implies grouped(
        pairs,
    ).dom().contains(k) && part[k] == grouped(pairs)[k] && part[k].len() == 1 by {
        assert(grouped(pairs)[k].len() == 1);
        assert(part[k] =~= grouped(pairs)[k]);
    }
}

/// The state that one pipeline shares among all the requests it handles: the
/// address of the solving service and the cache of session headers.
pub struct FlaresolverrMiddleware {
    instance: String,
    headers: HeaderMap<HeaderValue>,
}

impl FlaresolverrMiddleware {
    /// The address of the solving service.
    pub closed spec fn endpoint(&self) -> Seq<char> {
        self.instance@
    }

    /// The cached headers.
    pub closed spec fn cached(&self) -> Entries {
        header_entries(self.headers)
    }

    #[verifier::type_invariant]
    spec fn wf(&self) -> bool {
        session_entries(header_entries(self.headers))
    }

    /// A pipeline state for the solving service at `proxy_url`, with an
    /// empty cache.
    pub fn new(proxy_url: String) -> (res: Self)
        ensures
            res.endpoint() == proxy_url@,
            res.cached() == no_entries(),
    {
        FlaresolverrMiddleware { instance: proxy_url, headers: empty_headers() }
    }

    /// The address of the solving service.
    pub fn instance(&self) -> (res: &str)
        ensures
            res@ == self.endpoint(),
    {
        self.instance.as_str()
    }

    /// Takes the user agent of a solve into the cache, with the headers that
    /// go with it. A user agent that cannot be a header's value is refused,
    /// and the cache stays as it was.
    pub fn merge_user_agent(&mut self, user_agent: &str) -> (res: Result<(), FlaresolverrError>)
        ensures
            final(self).endpoint() == old(self).endpoint(),
            res == if is_header_value(bytes_of(user_agent@)) {
                Ok::<(), FlaresolverrError>(())
            } else {
                Err::<(), FlaresolverrError>(FlaresolverrError::MissingUserAgent)
            },
            final(self).cached() == if is_header_value(bytes_of(user_agent@)) {
                merged(old(self).cached(), bytes_of(user_agent@))
            } else {
                old(self).cached()
            },
    {
        proof {
            use_type_invariant(&*self);
            lemma_session_names();
            vstd::set_lib::lemma_len_subset(self.cached().dom(), session_names());
            lemma_merged_session(self.cached(), bytes_of(user_agent@));
        }
        let mut headers = empty_headers();
        core::mem::swap(&mut self.headers, &mut headers);
        let outcome = merge_headers(&mut headers, user_agent);
        self.headers = headers;
        match outcome {
            Merge::Merged => Ok(()),
            _ => Err(FlaresolverrError::MissingUserAgent),
        }
    }
}

impl FlaresolverrMiddleware {
    /// The cached headers as a list of pairs, one for each header: headers
    /// of the session only, each with one value.
    pub fn snapshot(&self) -> (res: Vec<HeaderPair>)
        ensures
            grouped(pair_views(res@)) == self.cached(),
            well_formed_pairs(pair_views(res@)),
            session_entries(grouped(pair_views(res@))),
    {
        proof {
            use_type_invariant(self);
        }
        header_pairs(&self.headers)
    }

    /// Lays the cached headers over the headers of a request: the request
    /// is then sent with its own headers and with every cached header, and
    /// where cache and request hold the same header, with the cached value
    /// in place of all that the request had. The result is `false` only
    /// where the request's map refused a write; the map then has no room
    /// left and holds some of the cached headers, not all. A map with room
    /// takes them all.
    pub fn overlay(&self, request: &mut HeaderMap<HeaderValue>) -> (res: bool)
        ensures
            res ==> header_entries(*final(request)) == header_entries(
                *old(request),
            ).union_prefer_right(self.cached()),
            fits(header_entries(*old(request)), self.cached()) ==> res,
            !res ==> header_entries(*final(request)).dom().len() >= SURE_ROOM,
            !res ==> exists|part: Entries| #[trigger]
                part.submap_of(self.cached()) && part.dom() != self.cached().dom()
                    && header_entries(*final(request)) == header_entries(
                    *old(request),
                ).union_prefer_right(part),
    {
        let pairs = header_pairs(&self.headers);
        let ghost before = header_entries(*request);
        let ghost cache = self.cached();
        let ghost views = pair_views(pairs@);
        proof {
            use_type_invariant(self);
            lemma_session_names();
            vstd::set_lib::lemma_len_subset(cache.dom(), session_names());
        }
        let mut i: usize = 0;
        assert(header_entries(*request) =~= overlaid(before, grouped(views.take(0))));
        while i < pairs.len()
            invariant
                i <= pairs.len(),
                views == pair_views(pairs@),
                grouped(views) == cache,
                well_formed_pairs(views),
                session_entries(cache),
                cache.dom().finite(),
                cache == self.cached(),
                before == header_entries(*old(request)),
                header_entries(*request) == overlaid(before, grouped(views.take(i as int))),
            decreases pairs.len() - i,
        {
            let ghost current = header_entries(*request);
            proof {
                assert(views[i as int] == pairs@[i as int]@);
            }
            match header_put(request, pairs[i].name.as_str(), pairs[i].value.as_slice()) {
                HeaderPut::Stored => {},
                _ => {
                    proof {
                        let part = grouped(views.take(i as int));
                        lemma_grouped_part(views, i as int);
                        law_overlay_prefers_cache(before, part);
                        assert(part.submap_of(cache));
                        let refused = views[i as int].name;
                        assert(views.take(i + 1).drop_last() =~= views.take(i as int));
                        assert(views.take(i + 1).last() == views[i as int]);
                        lemma_grouped_grows(views, i + 1);
                        assert(grouped(views.take(i + 1)).dom().contains(refused));
                        assert(cache.dom().contains(refused));
                        if part.dom().contains(refused) {
                            assert(grouped(views.take(i + 1))[refused].len() >= 2);
                            assert(cache[refused].len() == 1);
                        }
                        assert(!part.dom().contains(refused));
                        if fits(before, cache) {
                            lemma_grouped_prefix(views, i as int);
                            assert(current.dom().subset_of(before.dom().union(cache.dom())));
                            vstd::set_lib::lemma_len_union(before.dom(), cache.dom());
                            vstd::set_lib::lemma_len_subset(
                                current.dom(),
                                before.dom().union(cache.dom()),
                            );
                        }
                    }
                    return false;
                },
            }
            proof {
                assert(views.take(i + 1).drop_last() =~= views.take(i as int));
                assert(views.take(i + 1).last() == views[i as int]);
                assert(header_entries(*request) =~= overlaid(
                    before,
                    grouped(views.take(i + 1)),
                ));
            }
            i += 1;
        }
        proof {
            assert(views.take(pairs.len() as int) =~= views);
            law_overlay_prefers_cache(before, cache);
        }
        true
    }
}

/// Where every cached header has one value, laying the cache over a
/// request's headers gives the request's headers with each cached header in
/// place of the request's own: on a header that both hold, the cache wins.
pub proof fn law_overlay_prefers_cache(request: Entries, cache: Entries)
    requires
        forall|k: Seq<char>| cache.dom().contains(k) ==> (#[trigger] cache[k]).len() == 1,
    ensures
        overlaid(request, cache) == request.union_prefer_right(cache),
{
    assert forall|k: Seq<char>| cache.dom().contains(k) implies seq![(#[trigger] cache[k]).last()]
        == cache[k] by {
        assert(seq![cache[k].last()] =~= cache[k]);
    }
    assert(overlaid(request, cache) =~= request.union_prefer_right(cache));
}

/// What taking a solve in gives: the cache after it and the writes for the
/// cookie store, or the reason why the solve is refused. The cookies are
/// looked at before the user agent.
pub open spec fn absorbed(cache: Entries, solved: SolveView) -> Result<
    (Entries, Seq<WriteView>),
    FlaresolverrError,
> {
    match store_entries(solved.cookies) {
        Err(e) => Err(e),
        Ok(writes) => if is_header_value(bytes_of(solved.user_agent)) {
            Ok((merged(cache, bytes_of(solved.user_agent)), writes))
        } else {
            Err(FlaresolverrError::MissingUserAgent)
        },
    }
}

impl FlaresolverrMiddleware {
    /// Takes a solve in: the user agent goes into the header cache, and each
    /// cookie is written to the cookie store, in the order of the solve. The
    /// result lists the writes made. A solve that is refused leaves the
    /// cache as it was and writes nothing.
    pub fn absorb(&mut self, store: &mut CookieJar, result: &SolveResult) -> (res: Result<
        Vec<CookieWrite>,
        FlaresolverrError,
    >)
        ensures
            final(self).endpoint() == old(self).endpoint(),
            match absorbed(old(self).cached(), result@) {
                Ok((cache, writes)) => {
                    &&& res is Ok
                    &&& write_views(res->Ok_0@) == writes
                    &&& final(self).cached() == cache
                    &&& final(store).written() == old(store).written() + writes
                },
                Err(e) => {
                    &&& res is Err
                    &&& res->Err_0 == e
                    &&& final(self).cached() == old(self).cached()
                    &&& final(store).written() == old(store).written()
                },
            },
    {
        let writes = match to_store_entries(&result.cookies) {
            Ok(writes) => writes,
            Err(e) => {
                return Err(e);
            },
        };
        match self.merge_user_agent(result.user_agent.as_str()) {
            Ok(()) => {
                store.add_all(&writes);
                Ok(writes)
            },
            Err(e) => Err(e),
        }
    }
}

/// Taking the same user agent in a second time leaves the header cache as
/// the first time left it.
pub proof fn law_merge_twice(entries: Entries, agent: Seq<u8>)
    ensures
        merged(merged(entries, agent), agent) == merged(entries, agent),
{
    assert(merged(merged(entries, agent), agent) =~= merged(entries, agent));
}

/// Whether `name` is one of the five navigation headers, which a solve sets
/// only where the cache holds none.
pub open spec fn is_navigation_header(name: Seq<char>) -> bool {
    ||| name == "accept"@
    ||| name == "accept-language"@
    ||| name == "accept-encoding"@
    ||| name == "connection"@
    ||| name == "referer"@
}

/// The eight names of the session differ from one another.
pub proof fn lemma_session_names_differ()
    ensures
        "user-agent"@.len() == 10,
        "accept"@.len() == 6,
        "accept-language"@.len() == 15,
        "accept-encoding"@.len() == 15,
        "connection"@.len() == 10,
        "referer"@.len() == 7,
        "sec-fetch-mode"@.len() == 14,
        "sec-fetch-site"@.len() == 14,
        "user-agent"@ != "connection"@,
        "accept-language"@ != "accept-encoding"@,
        "sec-fetch-mode"@ != "sec-fetch-site"@,
{
    reveal_strlit("user-agent");
    reveal_strlit("accept");
    reveal_strlit("accept-language");
    reveal_strlit("accept-encoding");
    reveal_strlit("connection");
    reveal_strlit("referer");
    reveal_strlit("sec-fetch-mode");
    reveal_strlit("sec-fetch-site");
    assert("user-agent"@[0] != "connection"@[0]);
    assert("accept-language"@[7] != "accept-encoding"@[7]);
    assert("sec-fetch-mode"@[10] != "sec-fetch-site"@[10]);
}

/// A solve overwrites the user agent and the two fetch-metadata headers
/// whatever the cache held, and leaves a navigation header that the cache
/// holds as it was.
pub proof fn law_merge_overwrites_agent_only(entries: Entries, agent: Seq<u8>, name: Seq<char>)
    requires
        is_navigation_header(name),
        entries.dom().contains(name),
    ensures
        merged(entries, agent)[name] == entries[name],
        merged(entries, agent)["user-agent"@] == seq![agent],
        merged(entries, agent)["sec-fetch-mode"@] == seq![bytes_of("navigate"@)],
        merged(entries, agent)["sec-fetch-site"@] == seq![bytes_of("none"@)],
{
    lemma_session_names_differ();
}

} // verus!
