//! HTTP header maps, as this crate reads and writes them.
//!
//! The maps are those of the `http` crate. What a map holds is named by
//! [`header_entries`]: for each header name, in lower case, the values that
//! the map holds for it, in the order in which they were added. The functions
//! at the end of this file call the crate; their contracts are taken from
//! its source and are not proved here.

use http::header::{HeaderMap, HeaderName, HeaderValue};
use vstd::prelude::*;
use vstd::utf8::*;

verus! {

/// The header map of the `http` crate, taken as it is.
#[verifier::external_type_specification]
#[verifier::external_body]
#[verifier::reject_recursive_types(T)]
pub struct ExHeaderMap<T>(HeaderMap<T>);

/// The header value of the `http` crate, taken as it is.
#[verifier::external_type_specification]
#[verifier::external_body]
pub struct ExHeaderValue(HeaderValue);

/// What a header map holds: the values of each name, by the name in lower
/// case.
pub type Entries = Map<Seq<char>, Seq<Seq<u8>>>;

/// The values that a header map holds for each header name.
pub uninterp spec fn header_entries(map: HeaderMap<HeaderValue>) -> Entries;

/// A character that a header name may hold: a letter, a digit, or one of the
/// marks of an HTTP token.
pub open spec fn is_name_char(c: char) -> bool {
    ||| 'a' <= c <= 'z'
    ||| 'A' <= c <= 'Z'
    ||| '0' <= c <= '9'
    ||| c == '!'
    ||| c == '#'
    ||| c == '$'
    ||| c == '%'
    ||| c == '&'
    ||| c == '\''
    ||| c == '*'
    ||| c == '+'
    ||| c == '-'
    ||| c == '.'
    ||| c == '^'
    ||| c == '_'
    ||| c == '`'
    ||| c == '|'
    ||| c == '~'
}

/// The lower-case form of an ASCII letter; every other character as it is.
pub open spec fn lower(c: char) -> char {
    if 'A' <= c <= 'Z' {
        ((c as u8) + 32) as char
    } else {
        c
    }
}

/// The longest header name, in characters.
pub const MAX_NAME_LEN: usize = 65535;

/// Whether `name` can name a header.
pub open spec fn is_header_name(name: Seq<char>) -> bool {
    &&& 1 <= name.len() <= MAX_NAME_LEN
    &&& forall|i: int| 0 <= i < name.len() ==> is_name_char(#[trigger] name[i])
}

/// The key under which a map holds the header `name`: the name in lower
/// case. Names are matched without regard to case.
pub open spec fn header_key(name: Seq<char>) -> Seq<char> {
    name.map_values(|c: char| lower(c))
}

/// A byte that a header value may hold: a tab, or any byte from the space on
/// but for the delete character.
pub open spec fn is_value_byte(b: u8) -> bool {
    b >= 32 && b != 127 || b == 9
}

/// Whether `value` can be the value of a header.
pub open spec fn is_header_value(value: Seq<u8>) -> bool {
    forall|i: int| 0 <= i < value.len() ==> is_value_byte(#[trigger] value[i])
}

/// One header as a name and a value.
pub struct HeaderPair {
    pub name: String,
    pub value: Vec<u8>,
}

/// What a [`HeaderPair`] holds, as plain values.
pub struct PairView {
    pub name: Seq<char>,
    pub value: Seq<u8>,
}

impl View for HeaderPair {
    type V = PairView;

    open spec fn view(&self) -> PairView {
        PairView { name: self.name@, value: self.value@ }
    }
}

/// The views of a list of pairs.
pub open spec fn pair_views(pairs: Seq<HeaderPair>) -> Seq<PairView> {
    pairs.map_values(|p: HeaderPair| p@)
}

/// The entries with one more value for `key`, after those that it has.
pub open spec fn appended(entries: Entries, key: Seq<char>, value: Seq<u8>) -> Entries {
    entries.insert(
        key,
        if entries.dom().contains(key) {
            entries[key].push(value)
        } else {
            seq![value]
        },
    )
}

/// The entries that adding the pairs one after the other to an empty map
/// gives.
pub open spec fn grouped(pairs: Seq<PairView>) -> Entries
    decreases pairs.len(),
{
    if pairs.len() == 0 {
        Map::empty()
    } else {
        appended(grouped(pairs.drop_last()), pairs.last().name, pairs.last().value)
    }
}

/// Whether every pair has a name in lower case that can name a header, and
/// a value that can be one.
pub open spec fn well_formed_pairs(pairs: Seq<PairView>) -> bool {
    forall|i: int|
        0 <= i < pairs.len() ==> {
            &&& is_header_name((#[trigger] pairs[i]).name)
            &&& header_key(pairs[i].name) == pairs[i].name
            &&& is_header_value(pairs[i].value)
        }
}

/// How a write to a header map ended.
#[derive(Clone, Copy, Debug, PartialEq, Eq, Structural)]
pub enum HeaderPut {
    /// The header now has the one value written.
    Stored,
    /// The name cannot name a header.
    BadName,
    /// The value cannot be the value of a header.
    BadValue,
    /// The map has grown to its limit and takes no more.
    Full,
}

/// The entries of a map that holds nothing.
pub open spec fn no_entries() -> Entries {
    Map::empty()
}

/// Whether a write of `value` under `name` fails for the value's sake.
pub open spec fn value_refused(name: Seq<char>, value: Seq<u8>) -> bool {
    is_header_name(name) && !is_header_value(value)
}

/// Whether the entries hold a value for the header `name`.
pub open spec fn names_header(entries: Entries, name: Seq<char>) -> bool {
    is_header_name(name) && entries.dom().contains(header_key(name))
}

/// A map with fewer names than this takes every write.
pub const SURE_ROOM: usize = 4096;

/// Calls `HeaderMap::new`: the new map holds nothing.
#[verifier::external_body]
pub(crate) fn empty_headers() -> (res: HeaderMap<HeaderValue>)
    ensures
        header_entries(res) == no_entries(),
{
    HeaderMap::new()
}

/// Calls `HeaderMap::contains_key` with the name as a string: whether the
/// map holds a value for the name, whatever its case. A string that cannot
/// name a header is in no map.
#[verifier::external_body]
pub(crate) fn header_present(map: &HeaderMap<HeaderValue>, name: &str) -> (res: bool)
    ensures
        res == names_header(header_entries(*map), name@),
{
    map.contains_key(name)
}

/// Calls `HeaderName::from_bytes`, `HeaderValue::from_bytes` and
/// `HeaderMap::try_insert`. A name or a value that the crate refuses leaves
/// the map as it was. Otherwise the write gives the header this one value in
/// place of all that it had, unless the map refuses to grow, which it does
/// only once it holds `SURE_ROOM` names or more; then too the map is as it
/// was.
#[verifier::external_body]
pub(crate) fn header_put(map: &mut HeaderMap<HeaderValue>, name: &str, value: &[u8]) -> (res: HeaderPut)
    ensures
        res == HeaderPut::BadName <==> !is_header_name(name@),
        res == HeaderPut::BadValue <==> value_refused(name@, value@),
        res == HeaderPut::Full ==> header_entries(*old(map)).dom().len() >= SURE_ROOM,
        header_entries(*final(map)) == if res == HeaderPut::Stored {
            header_entries(*old(map)).insert(header_key(name@), seq![value@])
        } else {
            header_entries(*old(map))
        },
{
    let Ok(key) = HeaderName::from_bytes(name.as_bytes()) else {
        return HeaderPut::BadName;
    };
    let Ok(content) = HeaderValue::from_bytes(value) else {
        return HeaderPut::BadValue;
    };
    match map.try_insert(key, content) {
        Ok(_) => HeaderPut::Stored,
        Err(_) => HeaderPut::Full,
    }
}

/// Calls `HeaderMap::iter`, and `HeaderName::as_str` and
/// `HeaderValue::as_bytes` on what it yields: one pair for each value in the
/// map, the values of one name in their order. Each name comes in lower
/// case.
#[verifier::external_body]
pub(crate) fn header_pairs(map: &HeaderMap<HeaderValue>) -> (res: Vec<HeaderPair>)
    ensures
        grouped(pair_views(res@)) == header_entries(*map),
        well_formed_pairs(pair_views(res@)),
{
    map.iter().map(
        |(name, value)| HeaderPair { name: name.as_str().to_owned(), value: value.as_bytes().to_vec() },
    ).collect()
}

} // verus!
