//! The tag handlers that turn a forum post's HTML into the Markdown of a
//! chat message.
//!
//! A handler sees a tag before its children are written and again after
//! them, and edits the text written so far. The walk over the document is
//! the converter's; the edits are decided here, on a [`Printer`] that holds
//! the text and a [`Tag`] that holds the attributes. Places in the text are
//! counted in characters.

use crate::json::str_eq;
use crate::links::{is_same_target, same_target};
use crate::text::{
    chars_of, contains, contains_text, extend_chars, extend_str, line_views, lines_of,
    split_lines, string_of, trim_end, trimmed_end,
};
use vstd::prelude::*;
use vstd::string::*;

verus! {

/// The Markdown written so far.
pub struct Printer {
    pub data: String,
}

impl Printer {
    /// A printer that has written nothing.
    pub fn new() -> (res: Printer)
        ensures
            res.data@ == Seq::<char>::empty(),
    {
        Printer { data: String::new() }
    }

    /// The number of characters written.
    pub fn len(&self) -> (res: usize)
        ensures
            res == self.data@.len(),
    {
        self.data.as_str().unicode_len()
    }

    /// Writes `it` at the end.
    pub fn append_str(&mut self, it: &str)
        ensures
            final(self).data@ == old(self).data@ + it@,
    {
        self.data.append(it);
    }

    /// What was written from the place `pos` on.
    pub fn tail(&self, pos: usize) -> (res: String)
        requires
            pos <= self.data@.len(),
        ensures
            res@ == self.data@.skip(pos as int),
    {
        let len = self.data.as_str().unicode_len();
        let part = self.data.as_str().substring_char(pos, len);
        assert(part@ =~= self.data@.skip(pos as int));
        part.to_owned()
    }

    /// Drops what was written from the place `pos` on.
    pub fn truncate(&mut self, pos: usize)
        requires
            pos <= old(self).data@.len(),
        ensures
            final(self).data@ == old(self).data@.take(pos as int),
    {
        let kept = self.data.as_str().substring_char(0, pos).to_owned();
        assert(kept@ =~= self.data@.take(pos as int));
        self.data = kept;
    }

    /// Writes `it` at the place `pos`, before what stands there.
    pub fn insert_str(&mut self, pos: usize, it: &str)
        requires
            pos <= old(self).data@.len(),
        ensures
            final(self).data@ == old(self).data@.take(pos as int) + it@ + old(self).data@.skip(
                pos as int,
            ),
    {
        let rest = self.tail(pos);
        self.truncate(pos);
        self.data.append(it);
        self.data.append(rest.as_str());
    }
}

/// The attributes of a tag, in the order of the document. A node that is no
/// element has none.
pub struct Tag {
    pub attrs: Vec<(String, String)>,
}

/// The value of the first attribute named `name`.
pub open spec fn attr_of(attrs: Seq<(String, String)>, name: Seq<char>) -> Option<Seq<char>>
    decreases attrs.len(),
{
    if attrs.len() == 0 {
        None
    } else if attrs[0].0@ == name {
        Some(attrs[0].1@)
    } else {
        attr_of(attrs.drop_first(), name)
    }
}

/// The value of the attribute `attr_name` of the tag.
pub fn get_tag_attr(tag: &Tag, attr_name: &str) -> (res: Option<String>)
    ensures
        match res {
            Some(value) => attr_of(tag.attrs@, attr_name@) == Some(value@),
            None => attr_of(tag.attrs@, attr_name@) is None,
        },
{
    let mut i: usize = 0;
    assert(tag.attrs@.skip(0) =~= tag.attrs@);
    while i < tag.attrs.len()
        invariant
            i <= tag.attrs.len(),
            attr_of(tag.attrs@, attr_name@) == attr_of(tag.attrs@.skip(i as int), attr_name@),
        decreases tag.attrs.len() - i,
    {
        assert(tag.attrs@.skip(i as int)[0] == tag.attrs@[i as int]);
        if str_eq(tag.attrs[i].0.as_str(), attr_name) {
            return Some(tag.attrs[i].1.clone());
        }
        assert(tag.attrs@.skip(i as int).drop_first() =~= tag.attrs@.skip(i + 1));
        i += 1;
    }
    None
}

/// Whether the tag has the attribute `name` with the value `value`.
pub open spec fn attr_is(tag: Tag, name: Seq<char>, value: Seq<char>) -> bool {
    attr_of(tag.attrs@, name) == Some(value)
}

fn has_attr_value(tag: &Tag, name: &str, value: &str) -> (res: bool)
    ensures
        res == attr_is(*tag, name@, value@),
{
    match get_tag_attr(tag, name) {
        Some(found) => str_eq(found.as_str(), value),
        None => false,
    }
}

/// Writes nothing for a tag and hides what is inside it.
pub struct IgnoreHandler;

impl IgnoreHandler {
    pub fn handle(&mut self, _tag: &Tag, printer: &mut Printer)
        ensures
            final(printer).data@ == old(printer).data@,
    {
    }

    pub fn after_handle(&mut self, printer: &mut Printer)
        ensures
            final(printer).data@ == old(printer).data@,
    {
    }

    pub fn skip_descendants(&self) -> (res: bool)
        ensures
            res,
    {
        true
    }
}

pub struct IgnoreFactory;

impl IgnoreFactory {
    pub fn instantiate(&self) -> IgnoreHandler {
        IgnoreHandler
    }
}

/// Writes the word `Image` in place of a picture, and nothing in place of
/// an avatar.
pub struct CustomImgHandler {
    pub block_mode: bool,
}

/// Whether the picture asks to stand in a block of its own.
pub open spec fn asks_for_block(tag: Tag) -> bool {
    match attr_of(tag.attrs@, "src"@) {
        Some(src) => contains_text(src, "display: block"@),
        None => false,
    }
}

impl CustomImgHandler {
    pub fn handle(&mut self, tag: &Tag, printer: &mut Printer)
        ensures
            final(self).block_mode == (old(self).block_mode || asks_for_block(*tag)),
            final(printer).data@ == if attr_is(*tag, "class"@, "avatar"@) {
                old(printer).data@
            } else {
                old(printer).data@ + "Image\n"@
            },
    {
        match get_tag_attr(tag, "src") {
            Some(style) => {
                let hay = chars_of(style.as_str());
                let needle = chars_of("display: block");
                if contains(&hay, &needle) {
                    self.block_mode = true;
                }
            },
            None => {},
        }
        if has_attr_value(tag, "class", "avatar") {
            return ;
        }
        printer.append_str("Image\n");
    }

    pub fn after_handle(&mut self, printer: &mut Printer)
        ensures
            final(printer).data@ == old(printer).data@,
            final(self).block_mode == old(self).block_mode,
    {
    }
}

pub struct CustomImgFactory;

impl CustomImgFactory {
    pub fn instantiate(&self) -> (res: CustomImgHandler)
        ensures
            !res.block_mode,
    {
        CustomImgHandler { block_mode: false }
    }
}

/// One line of a quotation: nothing for a line of white space, and
/// otherwise the line without the white space at its end, after `> ` and
/// before a line feed.
pub open spec fn quote_line(line: Seq<char>) -> Seq<char> {
    let kept = trimmed_end(line);
    if kept.len() == 0 {
        Seq::empty()
    } else {
        "> "@ + kept + "\n"@
    }
}

/// The lines of a quotation, one after the other.
pub open spec fn quoted_lines(lines: Seq<Seq<char>>) -> Seq<char>
    decreases lines.len(),
{
    if lines.len() == 0 {
        Seq::empty()
    } else {
        quoted_lines(lines.drop_last()) + quote_line(lines.last())
    }
}

/// A text as a quotation: a line feed, then each line that is not blank as a
/// quoted line.
pub open spec fn quoted(content: Seq<char>) -> Seq<char> {
    "\n"@ + quoted_lines(lines_of(content))
}

/// Writes what stands inside a tag as a quotation.
pub struct CustomQuoteHandler {
    pub start_pos: usize,
}

impl CustomQuoteHandler {
    /// `content` as a quotation.
    pub fn quote(content: &str) -> (res: String)
        ensures
            res@ == quoted(content@),
    {
        let chars = chars_of(content);
        let lines = split_lines(&chars);
        let mut out: Vec<char> = Vec::new();
        extend_str(&mut out, "\n");
        let ghost views = line_views(lines@);
        let mut i: usize = 0;
        assert(out@ =~= "\n"@ + quoted_lines(views.take(0)));
        while i < lines.len()
            invariant
                i <= lines.len(),
                views == line_views(lines@),
                out@ == "\n"@ + quoted_lines(views.take(i as int)),
            decreases lines.len() - i,
        {
            let ghost before = out@;
            let kept = trim_end(&lines[i]);
            proof {
                assert(views.take(i + 1).drop_last() =~= views.take(i as int));
                assert(views.take(i + 1).last() == lines@[i as int]@);
            }
            if kept.len() > 0 {
                extend_str(&mut out, "> ");
                extend_chars(&mut out, &kept);
                extend_str(&mut out, "\n");
                assert(out@ =~= before + ("> "@ + kept@ + "\n"@));
            }
            assert(out@ =~= "\n"@ + quoted_lines(views.take(i + 1)));
            i += 1;
        }
        assert(views.take(lines.len() as int) =~= views);
        string_of(&out)
    }

    pub fn handle(&mut self, _tag: &Tag, printer: &mut Printer)
        ensures
            final(self).start_pos == old(printer).data@.len(),
            final(printer).data@ == old(printer).data@,
    {
        self.start_pos = printer.len();
    }

    pub fn after_handle(&mut self, printer: &mut Printer)
        requires
            old(self).start_pos <= old(printer).data@.len(),
        ensures
            final(self).start_pos == old(self).start_pos,
            final(printer).data@ == old(printer).data@.take(old(self).start_pos as int) + quoted(
                old(printer).data@.skip(old(self).start_pos as int),
            ),
    {
        let content = printer.tail(self.start_pos);
        let quotation = Self::quote(content.as_str());
        printer.truncate(self.start_pos);
        printer.append_str(quotation.as_str());
    }
}

pub struct CustomQuoteFactory;

impl CustomQuoteFactory {
    pub fn instantiate(&self) -> (res: CustomQuoteHandler)
        ensures
            res.start_pos == 0,
    {
        CustomQuoteHandler { start_pos: 0 }
    }
}

/// A character before which the converter's escaping backslash is dropped:
/// an ASCII letter or digit, or one of the marks that URLs are written with.
pub open spec fn is_url_char(c: char) -> bool {
    ||| 'a' <= c <= 'z'
    ||| 'A' <= c <= 'Z'
    ||| '0' <= c <= '9'
    ||| c == '_'
    ||| c == '-'
    ||| c == '.'
    ||| c == '/'
    ||| c == '?'
    ||| c == '='
    ||| c == '&'
    ||| c == '%'
    ||| c == '#'
    ||| c == ':'
    ||| c == '~'
}

/// `raw` without each backslash that stands before a URL character.
pub open spec fn cleaned(raw: Seq<char>) -> Seq<char>
    decreases raw.len(),
{
    if raw.len() == 0 {
        Seq::empty()
    } else if raw[0] == '\\' && raw.len() > 1 && is_url_char(raw[1]) {
        cleaned(raw.drop_first())
    } else {
        seq![raw[0]] + cleaned(raw.drop_first())
    }
}

fn url_char(c: char) -> (res: bool)
    ensures
        res == is_url_char(c),
{
    ('a' <= c && c <= 'z') || ('A' <= c && c <= 'Z') || ('0' <= c && c <= '9') || c == '_' || c
        == '-' || c == '.' || c == '/' || c == '?' || c == '=' || c == '&' || c == '%' || c == '#'
        || c == ':' || c == '~'
}

/// Takes the escaping backslashes out of a URL that stands in Markdown.
pub fn clean_url(raw: &str) -> (res: String)
    ensures
        res@ == cleaned(raw@),
{
    let chars = chars_of(raw);
    let mut out: Vec<char> = Vec::new();
    let mut i: usize = 0;
    assert(chars@.skip(0) =~= chars@);
    assert(out@ + cleaned(chars@) =~= cleaned(chars@));
    while i < chars.len()
        invariant
            i <= chars.len(),
            cleaned(chars@) == out@ + cleaned(chars@.skip(i as int)),
        decreases chars.len() - i,
    {
        let ghost rest = chars@.skip(i as int);
        let ghost before = out@;
        proof {
            assert(rest.drop_first() =~= chars@.skip(i + 1));
            assert(rest[0] == chars@[i as int]);
            if rest.len() > 1 {
                assert(rest[1] == chars@[i + 1]);
            }
        }
        let skip = chars[i] == '\\' && i + 1 < chars.len() && url_char(chars[i + 1]);
        if !skip {
            out.push(chars[i]);
            assert(before.push(rest[0]) + cleaned(chars@.skip(i + 1)) =~= before + (seq![rest[0]]
                + cleaned(chars@.skip(i + 1))));
        }
        i += 1;
    }
    assert(chars@.skip(chars.len() as int).len() == 0);
    assert(out@ + cleaned(chars@.skip(chars.len() as int)) =~= out@);
    string_of(&out)
}

/// Writes a link around what stands inside an anchor, unless that is the
/// link's own address, a mention, or a named anchor.
pub struct CustomAnchorHandler {
    pub start_pos: usize,
    pub url: String,
    pub emit_unchanged: bool,
    pub is_mention: bool,
}

/// The text with what stands from `start` on as the text of a link to
/// `url`.
pub open spec fn linked(data: Seq<char>, start: int, url: Seq<char>) -> Seq<char> {
    data.take(start) + "["@ + data.skip(start) + "]("@ + url + ")"@
}

impl CustomAnchorHandler {
    pub fn handle(&mut self, tag: &Tag, printer: &mut Printer)
        ensures
            final(self).is_mention == (old(self).is_mention || attr_is(
                *tag,
                "class"@,
                "mention"@,
            )),
            final(self).emit_unchanged == (old(self).emit_unchanged || attr_of(
                tag.attrs@,
                "name"@,
            ) is Some),
            final(self).start_pos == old(printer).data@.len(),
            final(self).url@ == match attr_of(tag.attrs@, "href"@) {
                Some(link) => link,
                None => Seq::empty(),
            },
            final(printer).data@ == old(printer).data@,
    {
        if has_attr_value(tag, "class", "mention") {
            self.is_mention = true;
        }
        if get_tag_attr(tag, "name").is_some() {
            self.emit_unchanged = true;
        }
        self.start_pos = printer.len();
        self.url = match get_tag_attr(tag, "href") {
            Some(link) => link,
            None => String::new(),
        };
    }

    /// Writes the link, given whether what stands inside the anchor is the
    /// link's own address.
    pub fn write_link(&self, printer: &mut Printer, own_address: bool)
        requires
            self.start_pos <= old(printer).data@.len(),
        ensures
            final(printer).data@ == if own_address || self.is_mention || self.emit_unchanged {
                old(printer).data@
            } else {
                linked(old(printer).data@, self.start_pos as int, self.url@)
            },
    {
        if own_address || self.is_mention || self.emit_unchanged {
            return ;
        }
        printer.insert_str(self.start_pos, "[");
        printer.append_str("](");
        printer.append_str(self.url.as_str());
        printer.append_str(")");
        proof {
            let data = old(printer).data@;
            let start = self.start_pos as int;
            assert(printer.data@ =~= linked(data, start, self.url@));
        }
    }

    pub fn after_handle(&mut self, printer: &mut Printer)
        requires
            old(self).start_pos <= old(printer).data@.len(),
        ensures
            final(self).start_pos == old(self).start_pos,
            final(self).url@ == old(self).url@,
            final(self).is_mention == old(self).is_mention,
            final(self).emit_unchanged == old(self).emit_unchanged,
            final(printer).data@ == if same_target(
                cleaned(old(printer).data@.skip(old(self).start_pos as int)),
                old(self).url@,
            ) || old(self).is_mention || old(self).emit_unchanged {
                old(printer).data@
            } else {
                linked(old(printer).data@, old(self).start_pos as int, old(self).url@)
            },
    {
        let captured = printer.tail(self.start_pos);
        let clean = clean_url(captured.as_str());
        let own_address = is_same_target(clean.as_str(), self.url.as_str());
        self.write_link(printer, own_address);
    }
}

pub struct CustomAnchorFactory;

impl CustomAnchorFactory {
    pub fn instantiate(&self) -> (res: CustomAnchorHandler)
        ensures
            res.start_pos == 0,
            res.url@ == Seq::<char>::empty(),
            !res.emit_unchanged,
            !res.is_mention,
    {
        CustomAnchorHandler {
            start_pos: 0,
            url: String::new(),
            emit_unchanged: false,
            is_mention: false,
        }
    }
}

/// Stands for the converter's own handler that writes nothing of its own.
pub struct DummyHandlerFactory;

/// Writes what stands inside a tag as a spoiler.
pub struct DetailsHandler {
    pub start_pos: usize,
}

impl DetailsHandler {
    pub fn handle(&mut self, _tag: &Tag, printer: &mut Printer)
        ensures
            final(self).start_pos == old(printer).data@.len(),
            final(printer).data@ == old(printer).data@,
    {
        self.start_pos = printer.len();
    }

    pub fn after_handle(&mut self, printer: &mut Printer)
        requires
            old(self).start_pos <= old(printer).data@.len(),
        ensures
            final(self).start_pos == old(self).start_pos,
            final(printer).data@ == old(printer).data@.take(old(self).start_pos as int) + "||"@
                + old(printer).data@.skip(old(self).start_pos as int) + "||"@,
    {
        let content = printer.tail(self.start_pos);
        printer.truncate(self.start_pos);
        printer.append_str("||");
        printer.append_str(content.as_str());
        printer.append_str("||");
    }
}

pub struct DetailsFactory;

impl DetailsFactory {
    pub fn instantiate(&self) -> (res: DetailsHandler)
        ensures
            res.start_pos == 0,
    {
        DetailsHandler { start_pos: 0 }
    }
}

/// Writes a quoted post, and under it whom it quotes.
pub struct AsideHandler {
    pub username: Option<String>,
}

impl AsideHandler {
    /// Notes whom the aside quotes. What stands inside the aside is written
    /// with the handlers of [`aside_handler_for`].
    pub fn handle(&mut self, tag: &Tag, printer: &mut Printer)
        ensures
            match final(self).username {
                Some(name) => attr_of(tag.attrs@, "data-username"@) == Some(name@),
                None => attr_of(tag.attrs@, "data-username"@) is None,
            },
            final(printer).data@ == old(printer).data@,
    {
        self.username = get_tag_attr(tag, "data-username");
    }

    pub fn after_handle(&mut self, printer: &mut Printer)
        ensures
            final(self).username == old(self).username,
            final(printer).data@ == match old(self).username {
                Some(name) => old(printer).data@ + "\u{e2}\u{a4}\u{b7} quoting: "@ + name@ + "\n"@,
                None => old(printer).data@,
            },
    {
        match &self.username {
            Some(name) => {
                printer.append_str("\u{e2}\u{a4}\u{b7} quoting: ");
                printer.append_str(name.as_str());
                printer.append_str("\n");
            },
            None => {},
        }
    }

    pub fn skip_descendants(&self) -> (res: bool)
        ensures
            res,
    {
        true
    }
}

pub struct AsideFactory;

impl AsideFactory {
    pub fn instantiate(&self) -> (res: AsideHandler)
        ensures
            res.username is None,
    {
        AsideHandler { username: None }
    }
}

/// The handlers of this file.
#[derive(Clone, Copy, Debug, PartialEq, Eq, Structural)]
pub enum HandlerKind {
    Ignore,
    Img,
    Quote,
    Anchor,
    Dummy,
    Details,
    Aside,
}

/// The handler for the tags that are handled alike in a post and in an
/// aside.
pub open spec fn shared_handler(tag: Seq<char>) -> Option<HandlerKind> {
    if tag == "img"@ {
        Some(HandlerKind::Img)
    } else if tag == "blockquote"@ || tag == "q"@ || tag == "cite"@ || tag == "quote"@ {
        Some(HandlerKind::Quote)
    } else if tag == "a"@ {
        Some(HandlerKind::Anchor)
    } else if tag == "summary"@ {
        Some(HandlerKind::Dummy)
    } else if tag == "details"@ {
        Some(HandlerKind::Details)
    } else {
        None
    }
}

/// The handler that a post's HTML is converted with at the tag `tag`;
/// `None` where the converter's own handler stays.
pub open spec fn post_handler(tag: Seq<char>) -> Option<HandlerKind> {
    if tag == "aside"@ {
        Some(HandlerKind::Aside)
    } else {
        shared_handler(tag)
    }
}

/// The handler that the inside of an aside is converted with at the tag
/// `tag`.
pub open spec fn aside_handler(tag: Seq<char>) -> Option<HandlerKind> {
    if tag == "div"@ {
        Some(HandlerKind::Ignore)
    } else {
        shared_handler(tag)
    }
}

fn shared_handler_for(tag: &str) -> (res: Option<HandlerKind>)
    ensures
        res == shared_handler(tag@),
{
    if str_eq(tag, "img") {
        Some(HandlerKind::Img)
    } else if str_eq(tag, "blockquote") || str_eq(tag, "q") || str_eq(tag, "cite") || str_eq(
        tag,
        "quote",
    ) {
        Some(HandlerKind::Quote)
    } else if str_eq(tag, "a") {
        Some(HandlerKind::Anchor)
    } else if str_eq(tag, "summary") {
        Some(HandlerKind::Dummy)
    } else if str_eq(tag, "details") {
        Some(HandlerKind::Details)
    } else {
        None
    }
}

/// The handler that a post's HTML is converted with at the tag `tag`.
pub fn handler_for(tag: &str) -> (res: Option<HandlerKind>)
    ensures
        res == post_handler(tag@),
{
    if str_eq(tag, "aside") {
        Some(HandlerKind::Aside)
    } else {
        shared_handler_for(tag)
    }
}

/// The handler that the inside of an aside is converted with at the tag
/// `tag`.
pub fn aside_handler_for(tag: &str) -> (res: Option<HandlerKind>)
    ensures
        res == aside_handler(tag@),
{
    if str_eq(tag, "div") {
        Some(HandlerKind::Ignore)
    } else {
        shared_handler_for(tag)
    }
}

/// The tags that have a handler of this file in a post or in an aside.
pub fn handled_tags() -> (res: Vec<&'static str>)
    ensures
        res@.len() == 10,
        res@[0]@ == "img"@,
        res@[1]@ == "blockquote"@,
        res@[2]@ == "q"@,
        res@[3]@ == "cite"@,
        res@[4]@ == "quote"@,
        res@[5]@ == "a"@,
        res@[6]@ == "summary"@,
        res@[7]@ == "details"@,
        res@[8]@ == "aside"@,
        res@[9]@ == "div"@,
{
    let mut out: Vec<&'static str> = Vec::new();
    out.push("img");
    out.push("blockquote");
    out.push("q");
    out.push("cite");
    out.push("quote");
    out.push("a");
    out.push("summary");
    out.push("details");
    out.push("aside");
    out.push("div");
    out
}

} // verus!
