//! A plain JSON value tree.
//!
//! The protocol logic of this crate reads and builds JSON documents but never
//! parses or prints JSON text itself: the transport turns bytes into a [`Json`]
//! tree and back. Numbers keep the three shapes a JSON number can take so that
//! the conversion at the transport is one for one.

use vstd::prelude::*;

verus! {

/// A JSON number: a non-negative integer, a negative integer, or a double
/// held by its IEEE 754 bit pattern.
#[derive(Clone, Copy, Debug, PartialEq)]
pub enum JsonNumber {
    PosInt(u64),
    NegInt(i64),
    Real { bits: u64 },
}

/// A JSON value. An object is an ordered list of members; a lookup takes the
/// first member with the given name.
#[derive(Debug, PartialEq)]
pub enum Json {
    Null,
    Bool(bool),
    Number(JsonNumber),
    Text(String),
    Array(Vec<Json>),
    Object(Vec<(String, Json)>),
}

/// Two to the power `k`.
pub open spec fn two_to(k: nat) -> int
    decreases k,
{
    if k == 0 {
        1
    } else {
        2 * two_to((k - 1) as nat)
    }
}

/// The whole number nearest to a double toward zero, kept within the range
/// of `i64`; zero for a value that is not a number. The double is given by
/// its bit pattern: one sign bit, eleven exponent bits, fifty-two fraction
/// bits.
pub open spec fn real_whole(bits: u64) -> int {
    let negative = bits >= 0x8000_0000_0000_0000;
    let exponent = (bits / 0x10_0000_0000_0000) % 2048;
    let fraction = bits % 0x10_0000_0000_0000;
    let limit = if negative {
        i64::MIN as int
    } else {
        i64::MAX as int
    };
    if exponent == 2047 {
        if fraction == 0 {
            limit
        } else {
            0
        }
    } else if exponent < 1023 {
        0
    } else if exponent >= 1086 {
        limit
    } else {
        let significand = 0x10_0000_0000_0000 + fraction;
        let magnitude = if exponent >= 1075 {
            significand * two_to((exponent - 1075) as nat)
        } else {
            significand / two_to((1075 - exponent) as nat)
        };
        if negative {
            -magnitude
        } else {
            magnitude
        }
    }
}

proof fn lemma_two_to_positive(k: nat)
    ensures
        two_to(k) > 0,
    decreases k,
{
    if k > 0 {
        lemma_two_to_positive((k - 1) as nat);
    }
}

proof fn lemma_two_to_ten(k: nat)
    requires
        k <= 10,
    ensures
        two_to(k) <= 1024,
{
    reveal_with_fuel(two_to, 12);
}

proof fn lemma_halve_again(x: int, d: int)
    requires
        0 <= x,
        0 < d,
    ensures
        (x / d) / 2 == x / (2 * d),
{
    vstd::arithmetic::div_mod::lemma_div_denominator(x, d, 2);
    assert(d * 2 == 2 * d);
}

/// `value` doubled `times` times.
fn doubled(value: u64, times: u64) -> (res: u64)
    requires
        value < 0x20_0000_0000_0000,
        times <= 10,
    ensures
        res == value * two_to(times as nat),
        res <= i64::MAX,
{
    let mut out = value;
    let mut i: u64 = 0;
    while i < times
        invariant
            i <= times <= 10,
            value < 0x20_0000_0000_0000,
            out == value * two_to(i as nat),
        decreases times - i,
    {
        proof {
            lemma_two_to_ten(i as nat);
            lemma_two_to_ten((i + 1) as nat);
            assert(value * two_to((i + 1) as nat) == 2 * (value * two_to(i as nat)))
                by (nonlinear_arith)
                requires
                    two_to((i + 1) as nat) == 2 * two_to(i as nat),
            ;
            lemma_two_to_positive((i + 1) as nat);
            assert(value * two_to((i + 1) as nat) <= 0x20_0000_0000_0000 * 1024)
                by (nonlinear_arith)
                requires
                    0 <= value < 0x20_0000_0000_0000,
                    0 < two_to((i + 1) as nat) <= 1024,
            ;
        }
        out = out * 2;
        i += 1;
    }
    proof {
        lemma_two_to_ten(times as nat);
        lemma_two_to_positive(times as nat);
        assert(value * two_to(times as nat) <= 0x1f_ffff_ffff_ffff * 1024) by (nonlinear_arith)
            requires
                0 <= value <= 0x1f_ffff_ffff_ffff,
                0 < two_to(times as nat) <= 1024,
        ;
    }
    out
}

/// `value` halved `times` times, each time rounding down.
fn halved(value: u64, times: u64) -> (res: u64)
    ensures
        res == (value as int) / two_to(times as nat),
        res <= value,
{
    let mut out = value;
    let mut i: u64 = 0;
    while i < times
        invariant
            i <= times,
            out == (value as int) / two_to(i as nat),
            out <= value,
        decreases times - i,
    {
        proof {
            lemma_two_to_positive(i as nat);
            lemma_halve_again(value as int, two_to(i as nat));
        }
        out = out / 2;
        i += 1;
    }
    out
}

/// What a [`Json`] value holds, as plain values.
pub enum JsonView {
    Null,
    Bool(bool),
    Number(JsonNumber),
    Text(Seq<char>),
    Array(Seq<JsonView>),
    Object(Seq<(Seq<char>, JsonView)>),
}

impl View for Json {
    type V = JsonView;

    open spec fn view(&self) -> JsonView
        decreases self,
    {
        match self {
            Json::Null => JsonView::Null,
            Json::Bool(b) => JsonView::Bool(*b),
            Json::Number(n) => JsonView::Number(*n),
            Json::Text(s) => JsonView::Text(s@),
            Json::Array(items) => JsonView::Array(array_view(items@)),
            Json::Object(members) => JsonView::Object(object_view(members@)),
        }
    }
}

/// The views of the elements of an array.
pub open spec fn array_view(items: Seq<Json>) -> Seq<JsonView>
    decreases items,
{
    if items.len() == 0 {
        Seq::empty()
    } else {
        array_view(items.drop_last()).push(items.last()@)
    }
}

/// The views of the members of an object.
pub open spec fn object_view(members: Seq<(String, Json)>) -> Seq<(Seq<char>, JsonView)>
    decreases members,
{
    if members.len() == 0 {
        Seq::empty()
    } else {
        object_view(members.drop_last()).push((members.last().0@, members.last().1@))
    }
}

/// The view of an array has the view of each element in the element's
/// place.
pub proof fn lemma_array_view(items: Seq<Json>)
    ensures
        array_view(items).len() == items.len(),
        forall|k: int| 0 <= k < items.len() ==> (#[trigger] array_view(items)[k]) == items[k]@,
    decreases items.len(),
{
    reveal_with_fuel(array_view, 2);
    if items.len() > 0 {
        lemma_array_view(items.drop_last());
    }
}

/// The view of an object has the name and the view of each member in the
/// member's place.
pub proof fn lemma_object_view(members: Seq<(String, Json)>)
    ensures
        object_view(members).len() == members.len(),
        forall|k: int|
            0 <= k < members.len() ==> (#[trigger] object_view(members)[k]) == (
                members[k].0@,
                members[k].1@,
            ),
    decreases members.len(),
{
    reveal_with_fuel(object_view, 2);
    if members.len() > 0 {
        lemma_object_view(members.drop_last());
    }
}

/// The value of the first member named `key`, if there is one.
pub open spec fn lookup(members: Seq<(String, Json)>, key: Seq<char>) -> Option<Json>
    decreases members.len(),
{
    if members.len() == 0 {
        None
    } else if members[0].0@ == key {
        Some(members[0].1)
    } else {
        lookup(members.drop_first(), key)
    }
}

/// Looking a key up in the members from `i` on, where member `i` has another
/// name, is looking it up from `i + 1` on.
pub proof fn lemma_lookup_skip(members: Seq<(String, Json)>, key: Seq<char>, i: int)
    requires
        0 <= i < members.len(),
        members[i].0@ != key,
    ensures
        lookup(members.skip(i), key) == lookup(members.skip(i + 1), key),
{
    assert(members.skip(i).drop_first() =~= members.skip(i + 1));
}

impl JsonNumber {
    /// The number as whole seconds or units: an integer as it is, a double
    /// cut toward zero, either kept within the range of `i64`.
    pub open spec fn whole(self) -> int {
        match self {
            JsonNumber::PosInt(u) => if u <= i64::MAX {
                u as int
            } else {
                i64::MAX as int
            },
            JsonNumber::NegInt(i) => i as int,
            JsonNumber::Real { bits } => real_whole(bits),
        }
    }

    pub fn to_whole(&self) -> (res: i64)
        ensures
            res == self.whole(),
    {
        match self {
            JsonNumber::PosInt(u) => if *u <= 0x7fff_ffff_ffff_ffff {
                *u as i64
            } else {
                i64::MAX
            },
            JsonNumber::NegInt(i) => *i,
            JsonNumber::Real { bits } => {
                let negative = *bits >= 0x8000_0000_0000_0000;
                let exponent = (*bits / 0x10_0000_0000_0000) % 2048;
                let fraction = *bits % 0x10_0000_0000_0000;
                let limit = if negative {
                    i64::MIN
                } else {
                    i64::MAX
                };
                if exponent == 2047 {
                    if fraction == 0 {
                        limit
                    } else {
                        0
                    }
                } else if exponent < 1023 {
                    0
                } else if exponent >= 1086 {
                    limit
                } else {
                    let significand = 0x10_0000_0000_0000 + fraction;
                    let magnitude = if exponent >= 1075 {
                        doubled(significand, exponent - 1075)
                    } else {
                        halved(significand, 1075 - exponent)
                    };
                    if negative {
                        0 - (magnitude as i64)
                    } else {
                        magnitude as i64
                    }
                }
            },
        }
    }
}

impl Json {
    /// The member `key` of an object; `None` for a missing member and for
    /// every value that is not an object.
    pub open spec fn member(self, key: Seq<char>) -> Option<Json> {
        match self {
            Json::Object(members) => lookup(members@, key),
            _ => None,
        }
    }

    /// The characters of a JSON string; `None` for every other value.
    pub open spec fn text(self) -> Option<Seq<char>> {
        match self {
            Json::Text(s) => Some(s@),
            _ => None,
        }
    }

    /// The elements of a JSON array; `None` for every other value.
    pub open spec fn elements(self) -> Option<Seq<Json>> {
        match self {
            Json::Array(items) => Some(items@),
            _ => None,
        }
    }

    pub fn get(&self, key: &str) -> (res: Option<&Json>)
        ensures
            match res {
                Some(found) => self.member(key@) == Some(*found),
                None => self.member(key@) is None,
            },
    {
        match self {
            Json::Object(members) => {
                let mut i: usize = 0;
                assert(members@.skip(0) =~= members@);
                while i < members.len()
                    invariant
                        i <= members.len(),
                        self.member(key@) == lookup(members@.skip(i as int), key@),
                    decreases members.len() - i,
                {
                    if str_eq(members[i].0.as_str(), key) {
                        assert(members@.skip(i as int)[0] == members@[i as int]);
                        return Some(&members[i].1);
                    }
                    proof {
                        lemma_lookup_skip(members@, key@, i as int);
                    }
                    i += 1;
                }
                None
            },
            _ => None,
        }
    }

    pub fn as_str(&self) -> (res: Option<&str>)
        ensures
            match res {
                Some(s) => self.text() == Some(s@),
                None => self.text() is None,
            },
    {
        match self {
            Json::Text(s) => Some(s.as_str()),
            _ => None,
        }
    }

    pub fn as_array(&self) -> (res: Option<&Vec<Json>>)
        ensures
            match res {
                Some(items) => self.elements() == Some(items@),
                None => self.elements() is None,
            },
    {
        match self {
            Json::Array(items) => Some(items),
            _ => None,
        }
    }
}

/// Whether two string slices hold the same characters.
pub fn str_eq(a: &str, b: &str) -> (res: bool)
    ensures
        res == (a@ == b@),
{
    let left = a.to_owned();
    let right = b.to_owned();
    left == right
}

/// A member that must be a string.
pub open spec fn text_member(j: Json, key: Seq<char>) -> Option<Seq<char>> {
    match j.member(key) {
        Some(v) => v.text(),
        None => None,
    }
}

/// Reads a member that must be a string.
pub fn read_text(j: &Json, key: &str) -> (res: Option<String>)
    ensures
        match res {
            Some(s) => text_member(*j, key@) == Some(s@),
            None => text_member(*j, key@) is None,
        },
{
    match j.get(key) {
        Some(v) => match v.as_str() {
            Some(s) => Some(s.to_owned()),
            None => None,
        },
        None => None,
    }
}

impl Json {
    /// A copy of the value.
    pub fn duplicate(&self) -> (res: Json)
        ensures
            res@ == self@,
        decreases self,
    {
        match self {
            Json::Null => Json::Null,
            Json::Bool(b) => Json::Bool(*b),
            Json::Number(n) => Json::Number(*n),
            Json::Text(s) => Json::Text(s.clone()),
            Json::Array(items) => {
                let mut out: Vec<Json> = Vec::new();
                let mut i: usize = 0;
                while i < items.len()
                    invariant
                        i <= items.len(),
                        *self is Array,
                        self->Array_0 == *items,
                        out@.len() == i,
                        forall|k: int| 0 <= k < i ==> (#[trigger] out@[k])@ == items@[k]@,
                    decreases items.len() - i,
                {
                    proof {
                        vstd::std_specs::vec::axiom_vec_index_decreases(*items, i as int);
                        assert(decreases_to!(*self => self->Array_0));
                    }
                    out.push(items[i].duplicate());
                    i += 1;
                }
                proof {
                    lemma_array_view(out@);
                    lemma_array_view(items@);
                    assert(array_view(out@) =~= array_view(items@));
                }
                Json::Array(out)
            },
            Json::Object(members) => {
                let mut out: Vec<(String, Json)> = Vec::new();
                let mut i: usize = 0;
                while i < members.len()
                    invariant
                        i <= members.len(),
                        *self is Object,
                        self->Object_0 == *members,
                        out@.len() == i,
                        forall|k: int|
                            0 <= k < i ==> (#[trigger] out@[k]).0@ == members@[k].0@ && out@[k].1@
                                == members@[k].1@,
                    decreases members.len() - i,
                {
                    proof {
                        vstd::std_specs::vec::axiom_vec_index_decreases(*members, i as int);
                        assert(decreases_to!(*self => self->Object_0));
                        assert(decreases_to!(members@[i as int] => members@[i as int].1));
                    }
                    out.push((members[i].0.clone(), members[i].1.duplicate()));
                    i += 1;
                }
                proof {
                    lemma_object_view(out@);
                    lemma_object_view(members@);
                    assert(object_view(out@) =~= object_view(members@));
                }
                Json::Object(out)
            },
        }
    }
}

} // verus!
