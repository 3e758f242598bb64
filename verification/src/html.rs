//! Looking elements up in an HTML document, with the `scraper` crate.

use crate::json::str_eq;
use crate::text::{chars_of, is_space, is_whitespace, matches_at, occurs_at};
use scraper::{Html, Selector};
use vstd::prelude::*;
use vstd::string::*;

verus! {

/// Two attributes of one element, each where the element has it.
pub struct AttrPair {
    pub first: Option<String>,
    pub second: Option<String>,
}

/// What an [`AttrPair`] holds, as plain values.
pub struct AttrPairView {
    pub first: Option<Seq<char>>,
    pub second: Option<Seq<char>>,
}

impl View for AttrPair {
    type V = AttrPairView;

    open spec fn view(&self) -> AttrPairView {
        AttrPairView {
            first: match self.first {
                Some(s) => Some(s@),
                None => None,
            },
            second: match self.second {
                Some(s) => Some(s@),
                None => None,
            },
        }
    }
}

/// The views of a list of attribute pairs.
pub open spec fn attr_pair_views(pairs: Seq<AttrPair>) -> Seq<AttrPairView> {
    pairs.map_values(|p: AttrPair| p@)
}

/// The attributes `first` and `second` of each element of the document
/// `html` that the CSS selector `selector` matches, in the order in which
/// the document is searched; `None` where `selector` is no CSS selector.
pub uninterp spec fn selected_attrs(
    html: Seq<char>,
    selector: Seq<char>,
    first: Seq<char>,
    second: Seq<char>,
) -> Option<Seq<AttrPairView>>;

/// Calls `Selector::parse`, `Html::parse_document`, `Html::select` and, on
/// each element found, `Element::attr` twice: the result lists the two
/// attributes of each element that matches.
#[verifier::external_body]
pub(crate) fn select_attrs(html: &str, selector: &str, first: &str, second: &str) -> (res: Option<
    Vec<AttrPair>,
>)
    ensures
        match res {
            Some(found) => selected_attrs(html@, selector@, first@, second@) == Some(
                attr_pair_views(found@),
            ),
            None => selected_attrs(html@, selector@, first@, second@) is None,
        },
{
    let chosen = Selector::parse(selector).ok()?;
    let document = Html::parse_document(html);
    Some(
        document.select(&chosen).map(
            |element| AttrPair {
                first: element.value().attr(first).map(String::from),
                second: element.value().attr(second).map(String::from),
            },
        ).collect(),
    )
}

/// A word: one character or more, none of them white space.
pub open spec fn is_word(word: Seq<char>) -> bool {
    &&& word.len() > 0
    &&& forall|i: int| 0 <= i < word.len() ==> !is_space(#[trigger] word[i])
}

/// Whether `word` stands in `text` at the place `i` with white space, or
/// an end of the text, on either side.
pub open spec fn word_at(text: Seq<char>, word: Seq<char>, i: int) -> bool {
    &&& occurs_at(text, word, i)
    &&& (i == 0 || is_space(text[i - 1]))
    &&& (i + word.len() == text.len() || is_space(text[i + word.len()]))
}

/// Whether `word` is one of the words of `text`, which white space
/// separates.
pub open spec fn has_word(text: Seq<char>, word: Seq<char>) -> bool {
    is_word(word) && exists|i: int| word_at(text, word, i)
}

fn check_word(word: &Vec<char>) -> (res: bool)
    ensures
        res == is_word(word@),
{
    if word.len() == 0 {
        return false;
    }
    let mut i: usize = 0;
    while i < word.len()
        invariant
            i <= word.len(),
            forall|k: int| 0 <= k < i ==> !is_space(#[trigger] word@[k]),
        decreases word.len() - i,
    {
        if is_whitespace(word[i]) {
            return false;
        }
        i += 1;
    }
    true
}

fn check_word_at(text: &Vec<char>, word: &Vec<char>, at: usize) -> (res: bool)
    ensures
        res == word_at(text@, word@, at as int),
{
    if !matches_at(text, word, at) {
        return false;
    }
    let total = text.len();
    let before = at == 0 || is_whitespace(text[at - 1]);
    let end = at + word.len();
    let after = end == total || is_whitespace(text[end]);
    before && after
}

/// Whether `word` is one of the words of `text`.
pub fn contains_word(text: &str, word: &str) -> (res: bool)
    ensures
        res == has_word(text@, word@),
{
    let hay = chars_of(text);
    let needle = chars_of(word);
    if !check_word(&needle) {
        return false;
    }
    let mut i: usize = 0;
    while i < hay.len()
        invariant
            i <= hay.len(),
            hay@ == text@,
            needle@ == word@,
            is_word(needle@),
            forall|k: int| 0 <= k < i ==> !word_at(hay@, needle@, k),
        decreases hay.len() - i,
    {
        if check_word_at(&hay, &needle, i) {
            return true;
        }
        i += 1;
    }
    assert forall|k: int| !word_at(hay@, needle@, k) by {
        if k >= hay.len() {
            assert(!occurs_at(hay@, needle@, k));
        }
    }
    false
}

/// Whether an element with these classes is kept when those of the class
/// `excluded` are left out.
pub open spec fn keeps_class(classes: Option<Seq<char>>, excluded: Seq<char>) -> bool {
    match classes {
        Some(list) => !has_word(list, excluded),
        None => true,
    }
}

/// The `second` attributes of the elements that have one and whose `first`
/// attribute does not hold the class `excluded`.
pub open spec fn kept_sources(pairs: Seq<AttrPairView>, excluded: Seq<char>) -> Seq<Seq<char>>
    decreases pairs.len(),
{
    if pairs.len() == 0 {
        Seq::empty()
    } else {
        let rest = kept_sources(pairs.drop_last(), excluded);
        let last = pairs.last();
        if keeps_class(last.first, excluded) && last.second is Some {
            rest.push(last.second->0)
        } else {
            rest
        }
    }
}

/// The views of a list of strings.
pub open spec fn string_views(list: Seq<String>) -> Seq<Seq<char>> {
    list.map_values(|s: String| s@)
}

/// Picks the sources of the elements that are not of the class `excluded`:
/// `first` holds an element's classes, `second` its source.
pub fn sources_without_class(pairs: &Vec<AttrPair>, excluded: &str) -> (res: Vec<String>)
    ensures
        string_views(res@) == kept_sources(attr_pair_views(pairs@), excluded@),
{
    let ghost views = attr_pair_views(pairs@);
    let mut out: Vec<String> = Vec::new();
    let mut i: usize = 0;
    assert(string_views(out@) =~= kept_sources(views.take(0), excluded@));
    while i < pairs.len()
        invariant
            i <= pairs.len(),
            views == attr_pair_views(pairs@),
            string_views(out@) == kept_sources(views.take(i as int), excluded@),
        decreases pairs.len() - i,
    {
        proof {
            assert(views.take(i + 1).drop_last() =~= views.take(i as int));
            assert(views.take(i + 1).last() == pairs@[i as int]@);
        }
        let keep = match &pairs[i].first {
            Some(list) => !contains_word(list.as_str(), excluded),
            None => true,
        };
        if keep {
            match &pairs[i].second {
                Some(source) => {
                    let ghost before = string_views(out@);
                    out.push(source.clone());
                    assert(string_views(out@) =~= before.push(source@));
                },
                None => {},
            }
        }
        i += 1;
    }
    assert(views.take(pairs.len() as int) =~= views);
    out
}

/// The sources of the pictures in `html` that are not of the class
/// `excluded`.
pub open spec fn image_sources(html: Seq<char>, excluded: Seq<char>) -> Seq<Seq<char>> {
    match selected_attrs(html, "img"@, "class"@, "src"@) {
        Some(pairs) => kept_sources(pairs, excluded),
        None => Seq::empty(),
    }
}

/// Lists the sources of the pictures in `html`, but for the pictures of the
/// class `excluded_class`.
pub fn extract_imgs_excluding_class(html: &str, excluded_class: &str) -> (res: Vec<String>)
    ensures
        string_views(res@) == image_sources(html@, excluded_class@),
{
    match select_attrs(html, "img", "class", "src") {
        Some(pairs) => sources_without_class(&pairs, excluded_class),
        None => {
            let out: Vec<String> = Vec::new();
            assert(string_views(out@) =~= Seq::<Seq<char>>::empty());
            out
        },
    }
}

} // verus!
