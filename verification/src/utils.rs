//! Small helpers shared by the rest of the crate.

use crate::json::Json;
use crate::text::prefix_chars;
use vstd::prelude::*;
use vstd::string::*;

verus! {

/// The record that ties a chat message to the forum post it shows.
#[derive(Clone, Copy, Debug, PartialEq, Eq, Structural)]
pub struct InsertDiscordIdRequest {
    pub discord_message_id: u64,
    pub post_id: i64,
}

/// The first `n` characters of `s`, or all of `s` where it has fewer.
pub fn trim_to_n_chars(s: &str, n: usize) -> (res: String)
    ensures
        res@ == prefix_chars(s@, n as nat),
{
    let len = s.unicode_len();
    if n < len {
        let head = s.substring_char(0, n);
        assert(head@ =~= s@.take(n as int));
        head.to_owned()
    } else {
        s.to_owned()
    }
}

/// The address that an alert on `topic` is posted to.
pub fn ntfy_url(topic: &str) -> (res: String)
    ensures
        res@ == "https://ntfy.themadseventeen.xyz/"@ + topic@,
{
    let mut out = String::from_str("https://ntfy.themadseventeen.xyz/");
    out.append(topic);
    out
}

/// A member's value with what is nested in it taken out: null in place of
/// an object or an array, every other value as it is.
pub open spec fn skimmed(value: Json) -> Json {
    match value {
        Json::Object(_) => Json::Null,
        Json::Array(_) => Json::Null,
        _ => value,
    }
}

/// Whether `after` holds the members of `before`, each with its value
/// skimmed.
pub open spec fn skimmed_members(before: Seq<(String, Json)>, after: Seq<(String, Json)>) -> bool {
    &&& after.len() == before.len()
    &&& forall|i: int|
        0 <= i < before.len() ==> (#[trigger] after[i]).0@ == before[i].0@ && after[i].1 == skimmed(
            before[i].1,
        )
}

fn is_nested(value: &Json) -> (res: bool)
    ensures
        res == (skimmed(*value) != *value),
{
    match value {
        Json::Object(_) => true,
        Json::Array(_) => true,
        _ => false,
    }
}

/// Removes all but the top level of an object: each member that is itself
/// an object or an array becomes null. A value that is no object stays as
/// it is.
pub fn _skim_json(value: &mut Json)
    ensures
        match *old(value) {
            Json::Object(before) => *final(value) matches Json::Object(after) && skimmed_members(
                before@,
                after@,
            ),
            _ => *final(value) == *old(value),
        },
{
    match value {
        Json::Object(members) => {
            let ghost before = members@;
            let mut i: usize = 0;
            while i < members.len()
                invariant
                    i <= members.len(),
                    members@.len() == before.len(),
                    forall|k: int|
                        0 <= k < i ==> (#[trigger] members@[k]).0@ == before[k].0@ && members@[k].1
                            == skimmed(before[k].1),
                    forall|k: int| i <= k < before.len() ==> members@[k] == before[k],
                decreases members.len() - i,
            {
                if is_nested(&members[i].1) {
                    let name = members[i].0.clone();
                    members.set(i, (name, Json::Null));
                }
                i += 1;
            }
        },
        _ => {},
    }
}

} // verus!
