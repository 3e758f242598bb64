//! A forum post as the embeds of a chat message.

use crate::html::{extract_imgs_excluding_class, image_sources, string_views};
use crate::json::{lemma_object_view, read_text, str_eq, text_member, Json, JsonNumber, JsonView};
use crate::text::{
    chars_of, decimal, extend_chars, extend_str, line_views, lines_of, prefix_chars,
    push_signed_decimal, replace_all, replaced, signed_decimal, slice_of, split_lines, string_of,
};
use crate::utils::trim_to_n_chars;
use regex::Regex;
use vstd::prelude::*;
use vstd::string::*;

verus! {

/// The record that ties a chat message to the forum post it shows, as it
/// goes through the message queue.
#[derive(Clone, Copy, Debug, PartialEq, Eq, Structural)]
pub struct DiscordMapping {
    pub discord_message_id: u64,
    pub post_id: i64,
}

/// What this crate reads of a forum post.
#[derive(Clone, Debug)]
pub struct Post {
    pub username: String,
    pub display_username: String,
    /// The body as HTML.
    pub cooked: String,
    /// The path of the avatar, with `{size}` where the size goes.
    pub avatar_template: String,
    pub post_number: i64,
    pub post_type: i64,
    pub action_code: Option<String>,
    pub action_code_who: Option<String>,
    pub created_at: String,
    pub updated_at: String,
}

/// What this crate reads of a topic.
#[derive(Clone, Debug)]
pub struct Topic {
    pub id: i64,
    pub title: String,
}

/// What this crate reads of a category.
#[derive(Clone, Debug)]
pub struct Category {
    /// The colour as six hexadecimal digits.
    pub color: String,
}

/// A post with what stands around it.
#[derive(Clone, Debug)]
pub struct PostData {
    pub post: Post,
    pub replying_to_post: Option<Post>,
    pub topic: Topic,
    pub category: Category,
    pub base_url: String,
}

/// The kind of post that records an action of the staff.
pub const ADMIN_ACTION_POST: i64 = 3;

/// The kind of post that a moderator writes.
pub const MODERATOR_POST: i64 = 2;

/// The size, in pixels, of the avatars that embeds show.
pub open spec fn avatar_path(template: Seq<char>) -> Seq<char> {
    replaced(template, "{size}"@, "144"@)
}

/// The value of a hexadecimal digit.
pub open spec fn hex_digit(c: char) -> Option<int> {
    if '0' <= c <= '9' {
        Some(c as int - '0' as int)
    } else if 'a' <= c <= 'f' {
        Some(c as int - 'a' as int + 10)
    } else if 'A' <= c <= 'F' {
        Some(c as int - 'A' as int + 10)
    } else {
        None
    }
}

/// The number that hexadecimal digits stand for; `None` where one of the
/// characters is no digit.
pub open spec fn hex_number(digits: Seq<char>) -> Option<int>
    decreases digits.len(),
{
    if digits.len() == 0 {
        Some(0)
    } else {
        match (hex_number(digits.drop_last()), hex_digit(digits.last())) {
            (Some(high), Some(low)) => Some(high * 16 + low),
            _ => None,
        }
    }
}

/// `hex` without one leading `#`.
pub open spec fn without_hash(hex: Seq<char>) -> Seq<char> {
    if hex.len() > 0 && hex[0] == '#' {
        hex.skip(1)
    } else {
        hex
    }
}

/// The colour that `hex` stands for: after one leading `#`, where there is
/// one, six characters that are six hexadecimal digits, or a plus sign and
/// five.
pub open spec fn hex_color(hex: Seq<char>) -> Option<int> {
    let body = without_hash(hex);
    if body.len() != 6 {
        None
    } else if body[0] == '+' {
        hex_number(body.skip(1))
    } else {
        hex_number(body)
    }
}

fn hex_digit_value(c: char) -> (res: Option<u32>)
    ensures
        match res {
            Some(d) => hex_digit(c) == Some(d as int) && d < 16,
            None => hex_digit(c) is None,
        },
{
    if '0' <= c && c <= '9' {
        Some((c as u32) - ('0' as u32))
    } else if 'a' <= c && c <= 'f' {
        Some((c as u32) - ('a' as u32) + 10)
    } else if 'A' <= c && c <= 'F' {
        Some((c as u32) - ('A' as u32) + 10)
    } else {
        None
    }
}

proof fn lemma_hex_number_prefix(digits: Seq<char>, k: int)
    requires
        0 <= k <= digits.len(),
        hex_number(digits.take(k)) is None,
    ensures
        hex_number(digits) is None,
    decreases digits.len() - k,
{
    if k < digits.len() {
        assert(digits.take(k + 1).drop_last() =~= digits.take(k));
        lemma_hex_number_prefix(digits, k + 1);
    } else {
        assert(digits.take(k) =~= digits);
    }
}

/// Reads a colour of six hexadecimal digits, with or without a leading `#`.
pub fn _hex_color_to_int(hex: &str) -> (res: Option<u32>)
    ensures
        match res {
            Some(color) => hex_color(hex@) == Some(color as int),
            None => hex_color(hex@) is None,
        },
{
    let all = chars_of(hex);
    let from: usize = if all.len() > 0 && all[0] == '#' {
        1
    } else {
        0
    };
    let body = slice_of(&all, from, all.len());
    assert(body@ =~= without_hash(hex@));
    if body.len() != 6 {
        return None;
    }
    let start: usize = if body[0] == '+' {
        1
    } else {
        0
    };
    let digits = slice_of(&body, start, 6);
    assert(digits@ =~= if body@[0] == '+' {
        body@.skip(1)
    } else {
        body@
    });
    let mut value: u32 = 0;
    let mut i: usize = 0;
    while i < digits.len()
        invariant
            i <= digits.len() <= 6,
            hex_color(hex@) == hex_number(digits@),
            hex_number(digits@.take(i as int)) == Some(value as int),
            value < sixteen_to(i as nat),
        decreases digits.len() - i,
    {
        proof {
            assert(digits@.take(i + 1).drop_last() =~= digits@.take(i as int));
            assert(digits@.take(i + 1).last() == digits@[i as int]);
            lemma_sixteen_to(i as nat);
        }
        match hex_digit_value(digits[i]) {
            Some(d) => {
                value = value * 16 + d;
            },
            None => {
                proof {
                    assert(hex_number(digits@.take(i + 1)) is None);
                    lemma_hex_number_prefix(digits@, i + 1);
                }
                return None;
            },
        }
        i += 1;
    }
    assert(digits@.take(digits.len() as int) =~= digits@);
    Some(value)
}

/// Sixteen to the power `k`.
pub open spec fn sixteen_to(k: nat) -> int
    decreases k,
{
    if k == 0 {
        1
    } else {
        16 * sixteen_to((k - 1) as nat)
    }
}

proof fn lemma_sixteen_to(k: nat)
    requires
        k <= 6,
    ensures
        sixteen_to(k) <= 0x100_0000,
        sixteen_to(k + 1) == 16 * sixteen_to(k),
{
    reveal_with_fuel(sixteen_to, 8);
}

/// What an action of the staff says, by its code and, for some codes, by
/// the user or group that it names.
pub open spec fn admin_action_text(code: Option<Seq<char>>, who: Option<Seq<char>>) -> Seq<char> {
    match code {
        None => Seq::empty(),
        Some(code) => if code == "public_open"@ {
            "Made this topic public"@
        } else if code == "open_topic"@ {
            "Converted this to a topic"@
        } else if code == "private_topic"@ {
            "Made this topic a personal message"@
        } else if code == "split_topic"@ {
            "Split this topic"@
        } else if code == "invited_user"@ {
            match who {
                Some(who) => "Invited "@ + who,
                None => "Invited a user"@,
            }
        } else if code == "invited_group"@ {
            match who {
                Some(who) => "Invited group "@ + who,
                None => "Invited a group"@,
            }
        } else if code == "user_left"@ {
            match who {
                Some(who) => who + " removed themselves from this message"@,
                None => "A user removed themselves from this message"@,
            }
        } else if code == "removed_user"@ {
            match who {
                Some(who) => "Removed "@ + who,
                None => "Removed a user"@,
            }
        } else if code == "removed_group"@ {
            match who {
                Some(who) => "Removed "@ + who + " group"@,
                None => "Removed a group"@,
            }
        } else if code == "autobumped"@ {
            "Automatically bumped"@
        } else if code == "tags_changed"@ {
            "Tags updated"@
        } else if code == "category_changed"@ {
            "Category updated"@
        } else if code == "autoclosed.enabled"@ || code == "closed.enabled"@ {
            "Closed"@
        } else if code == "autoclosed.disabled"@ || code == "closed.disabled"@ {
            "Opened"@
        } else if code == "archived.enabled"@ {
            "Archived"@
        } else if code == "archived.disabled"@ {
            "Unarchived"@
        } else if code == "pinned.enabled"@ {
            "Pinned"@
        } else if code == "pinned.disabled"@ || code == "pinned_globally.disabled"@ {
            "Unpinned"@
        } else if code == "pinned_globally.enabled"@ {
            "Pinned globally"@
        } else if code == "visible.enabled"@ {
            "Listed"@
        } else if code == "visible.disabled"@ {
            "Unlisted"@
        } else if code == "banner.enabled"@ {
            "Made this a banner. It will appear at the top of every page until it is dismissed by the user."@
        } else if code == "banner.disabled"@ {
            "Removed this banner. It will no longer appear at the top of every page."@
        } else if code == "forwarded"@ {
            "Forwarded the above email"@
        } else {
            Seq::empty()
        },
    }
}

/// The view of an optional string.
pub open spec fn optional_view(s: Option<String>) -> Option<Seq<char>> {
    match s {
        Some(s) => Some(s@),
        None => None,
    }
}

fn lit(s: &str) -> (res: String)
    ensures
        res@ == s@,
{
    String::from_str(s)
}

fn named(before: &str, who: &Option<String>, after: &str, nobody: &str) -> (res: String)
    ensures
        res@ == match *who {
            Some(who) => before@ + who@ + after@,
            None => nobody@,
        },
{
    match who {
        Some(who) => {
            let mut out = String::from_str(before);
            out.append(who.as_str());
            out.append(after);
            out
        },
        None => String::from_str(nobody),
    }
}

/// What an action of the staff says.
pub fn get_admin_action_description(post: &Post) -> (res: String)
    ensures
        res@ == admin_action_text(
            optional_view(post.action_code),
            optional_view(post.action_code_who),
        ),
{
    let who = &post.action_code_who;
    proof {
        reveal_strlit("");
        assert forall|a: Seq<char>| #[trigger] (""@ + a) =~= a by {}
        assert forall|a: Seq<char>| #[trigger] (a + ""@) =~= a by {}
    }
    let code = match &post.action_code {
        Some(code) => code.as_str(),
        None => {
            return String::new();
        },
    };
    if str_eq(code, "public_open") {
        lit("Made this topic public")
    } else if str_eq(code, "open_topic") {
        lit("Converted this to a topic")
    } else if str_eq(code, "private_topic") {
        lit("Made this topic a personal message")
    } else if str_eq(code, "split_topic") {
        lit("Split this topic")
    } else if str_eq(code, "invited_user") {
        named("Invited ", who, "", "Invited a user")
    } else if str_eq(code, "invited_group") {
        named("Invited group ", who, "", "Invited a group")
    } else if str_eq(code, "user_left") {
        named(
            "",
            who,
            " removed themselves from this message",
            "A user removed themselves from this message",
        )
    } else if str_eq(code, "removed_user") {
        named("Removed ", who, "", "Removed a user")
    } else if str_eq(code, "removed_group") {
        named("Removed ", who, " group", "Removed a group")
    } else if str_eq(code, "autobumped") {
        lit("Automatically bumped")
    } else if str_eq(code, "tags_changed") {
        lit("Tags updated")
    } else if str_eq(code, "category_changed") {
        lit("Category updated")
    } else if str_eq(code, "autoclosed.enabled") || str_eq(code, "closed.enabled") {
        lit("Closed")
    } else if str_eq(code, "autoclosed.disabled") || str_eq(code, "closed.disabled") {
        lit("Opened")
    } else if str_eq(code, "archived.enabled") {
        lit("Archived")
    } else if str_eq(code, "archived.disabled") {
        lit("Unarchived")
    } else if str_eq(code, "pinned.enabled") {
        lit("Pinned")
    } else if str_eq(code, "pinned.disabled") || str_eq(code, "pinned_globally.disabled") {
        lit("Unpinned")
    } else if str_eq(code, "pinned_globally.enabled") {
        lit("Pinned globally")
    } else if str_eq(code, "visible.enabled") {
        lit("Listed")
    } else if str_eq(code, "visible.disabled") {
        lit("Unlisted")
    } else if str_eq(code, "banner.enabled") {
        lit(
            "Made this a banner. It will appear at the top of every page until it is dismissed by the user.",
        )
    } else if str_eq(code, "banner.disabled") {
        lit("Removed this banner. It will no longer appear at the top of every page.")
    } else if str_eq(code, "forwarded") {
        lit("Forwarded the above email")
    } else {
        String::new()
    }
}

/// Each line as a line of a quotation: after `> ` and before a line feed.
pub open spec fn reply_lines(lines: Seq<Seq<char>>) -> Seq<char>
    decreases lines.len(),
{
    if lines.len() == 0 {
        Seq::empty()
    } else {
        reply_lines(lines.drop_last()) + "> "@ + lines.last() + "\n"@
    }
}

/// `text` with a line feed at its end, added where it has none.
pub open spec fn closed_line(text: Seq<char>) -> Seq<char> {
    if text.len() > 0 && text.last() == '\n' {
        text
    } else {
        text + "\n"@
    }
}

/// The most characters of the post replied to that a description quotes.
pub const REPLY_QUOTE_CHARS: usize = 1000;

/// The most characters of a post's own text in a description, after a
/// quotation and without one.
pub const REPLY_BODY_CHARS: usize = 900;

pub const PLAIN_BODY_CHARS: usize = 1900;

/// What stands before a reply: the post replied to as a quotation, cut to
/// its length, and under it who wrote that post.
pub open spec fn reply_block(markdown: Seq<char>, username: Seq<char>) -> Seq<char> {
    closed_line(prefix_chars(reply_lines(lines_of(markdown)), REPLY_QUOTE_CHARS as nat))
        + "\u{2937} replying to: "@ + username + "\n\n"@
}

/// The description of an ordinary post whose text, as Markdown, is
/// `markdown`. `reply` holds, for a reply, the Markdown of the post replied
/// to and the name of its author.
pub open spec fn normal_description(
    reply: Option<(Seq<char>, Seq<char>)>,
    markdown: Seq<char>,
) -> Seq<char> {
    match reply {
        Some((quoted, username)) => reply_block(quoted, username) + prefix_chars(
            markdown,
            REPLY_BODY_CHARS as nat,
        ),
        None => prefix_chars(markdown, PLAIN_BODY_CHARS as nat),
    }
}

/// What the description of `post_data` is written from: for a reply the
/// Markdown `reply_md` of the post replied to, with its author.
pub open spec fn reply_of(post_data: PostData, reply_md: Seq<char>) -> Option<
    (Seq<char>, Seq<char>),
> {
    match post_data.replying_to_post {
        Some(replied) => Some((reply_md, replied.username@)),
        None => None,
    }
}

fn push_prefix(out: &mut Vec<char>, text: &Vec<char>, n: usize)
    ensures
        final(out)@ == old(out)@ + prefix_chars(text@, n as nat),
{
    if n < text.len() {
        let head = slice_of(text, 0, n);
        assert(head@ =~= text@.take(n as int));
        extend_chars(out, &head);
    } else {
        extend_chars(out, text);
    }
}

fn quote_reply(markdown: &str) -> (res: Vec<char>)
    ensures
        res@ == reply_lines(lines_of(markdown@)),
{
    let chars = chars_of(markdown);
    let lines = split_lines(&chars);
    let ghost views = line_views(lines@);
    let mut out: Vec<char> = Vec::new();
    let mut i: usize = 0;
    assert(out@ =~= reply_lines(views.take(0)));
    while i < lines.len()
        invariant
            i <= lines.len(),
            views == line_views(lines@),
            out@ == reply_lines(views.take(i as int)),
        decreases lines.len() - i,
    {
        proof {
            assert(views.take(i + 1).drop_last() =~= views.take(i as int));
            assert(views.take(i + 1).last() == lines@[i as int]@);
        }
        extend_str(&mut out, "> ");
        extend_chars(&mut out, &lines[i]);
        extend_str(&mut out, "\n");
        i += 1;
    }
    assert(views.take(lines.len() as int) =~= views);
    out
}

/// Describes an ordinary post. `post_md` is the post's text as Markdown,
/// and `reply_md` that of the post replied to, which is read for a reply
/// only.
pub fn get_normal_description(post_data: &PostData, post_md: &str, reply_md: &str) -> (res: String)
    ensures
        res@ == normal_description(reply_of(*post_data, reply_md@), post_md@),
{
    let mut out: Vec<char> = Vec::new();
    let body = chars_of(post_md);
    match &post_data.replying_to_post {
        Some(replied) => {
            let quote = quote_reply(reply_md);
            push_prefix(&mut out, &quote, REPLY_QUOTE_CHARS);
            assert(out@ =~= prefix_chars(quote@, REPLY_QUOTE_CHARS as nat));
            let closed = out.len() > 0 && out[out.len() - 1] == '\n';
            if !closed {
                extend_str(&mut out, "\n");
            }
            extend_str(&mut out, "\u{2937} replying to: ");
            extend_str(&mut out, replied.username.as_str());
            extend_str(&mut out, "\n\n");
            push_prefix(&mut out, &body, REPLY_BODY_CHARS);
        },
        None => {
            push_prefix(&mut out, &body, PLAIN_BODY_CHARS);
            assert(out@ =~= prefix_chars(body@, PLAIN_BODY_CHARS as nat));
        },
    }
    string_of(&out)
}

/// The description of a post: for an action of the staff what the action
/// says, in italics, and for every other post the ordinary description.
pub open spec fn post_content(post_data: PostData, post_md: Seq<char>, reply_md: Seq<char>) -> Seq<
    char,
> {
    if post_data.post.post_type == ADMIN_ACTION_POST {
        "*"@ + admin_action_text(
            optional_view(post_data.post.action_code),
            optional_view(post_data.post.action_code_who),
        ) + "*"@
    } else {
        normal_description(reply_of(post_data, reply_md), post_md)
    }
}

/// Describes a post.
pub fn get_post_content(post_data: &PostData, post_md: &str, reply_md: &str) -> (res: String)
    ensures
        res@ == post_content(*post_data, post_md@, reply_md@),
{
    if post_data.post.post_type == ADMIN_ACTION_POST {
        let raw = get_admin_action_description(&post_data.post);
        let mut out = String::from_str("*");
        out.append(raw.as_str());
        out.append("*");
        out
    } else {
        get_normal_description(post_data, post_md, reply_md)
    }
}

/// The address of a post's avatar under `base_url`.
pub open spec fn avatar_url(base_url: Seq<char>, template: Seq<char>) -> Seq<char> {
    base_url + "/"@ + avatar_path(template)
}

fn fill_avatar(template: &str) -> (res: Vec<char>)
    ensures
        res@ == avatar_path(template@),
{
    let text = chars_of(template);
    let pattern = chars_of("{size}");
    let with = chars_of("144");
    replace_all(&text, &pattern, &with)
}

/// The name of a post's author and the address of the avatar.
pub fn create_embed_author(post: &Post, base_url: &str) -> (res: (String, String))
    ensures
        res.0@ == post.username@,
        res.1@ == avatar_url(base_url@, post.avatar_template@),
{
    let mut avatar = chars_of(base_url);
    extend_str(&mut avatar, "/");
    let path = fill_avatar(post.avatar_template.as_str());
    extend_chars(&mut avatar, &path);
    (post.username.clone(), string_of(&avatar))
}

/// The address of a post under `base_url`.
pub open spec fn post_link(post_data: PostData, base_url: Seq<char>) -> Seq<char> {
    base_url + "/t/"@ + signed_decimal(post_data.topic.id as int) + "/"@ + signed_decimal(
        post_data.post.post_number as int,
    )
}

/// The address of a post.
pub fn get_link(post_data: &PostData, base_url: &str) -> (res: Option<String>)
    ensures
        res is Some,
        res->0@ == post_link(*post_data, base_url@),
{
    let mut out = chars_of(base_url);
    extend_str(&mut out, "/t/");
    push_signed_decimal(&mut out, post_data.topic.id);
    extend_str(&mut out, "/");
    push_signed_decimal(&mut out, post_data.post.post_number);
    Some(string_of(&out))
}

/// The title of a post: that of its topic and the post's number.
pub open spec fn post_title(post_data: PostData) -> Seq<char> {
    post_data.topic.title@ + " #"@ + signed_decimal(post_data.post.post_number as int)
}

/// The title of a post.
pub fn get_title(post_data: &PostData) -> (res: Option<String>)
    ensures
        res is Some,
        res->0@ == post_title(*post_data),
{
    let mut out = chars_of(post_data.topic.title.as_str());
    extend_str(&mut out, " #");
    push_signed_decimal(&mut out, post_data.post.post_number);
    Some(string_of(&out))
}

/// The author line of an embed.
#[derive(Clone, Debug)]
pub struct EmbedAuthor {
    pub name: String,
    pub icon_url: String,
    pub url: String,
}

/// One embed of a chat message: each part where the embed has it.
#[derive(Clone, Debug)]
pub struct Embed {
    pub description: Option<String>,
    pub url: Option<String>,
    pub title: Option<String>,
    pub author: Option<EmbedAuthor>,
    pub footer: Option<String>,
    pub color: Option<u32>,
    pub timestamp: Option<String>,
    pub image: Option<String>,
}

/// What an [`EmbedAuthor`] holds, as plain values.
pub struct AuthorView {
    pub name: Seq<char>,
    pub icon_url: Seq<char>,
    pub url: Seq<char>,
}

/// What an [`Embed`] holds, as plain values.
pub struct EmbedView {
    pub description: Option<Seq<char>>,
    pub url: Option<Seq<char>>,
    pub title: Option<Seq<char>>,
    pub author: Option<AuthorView>,
    pub footer: Option<Seq<char>>,
    pub color: Option<u32>,
    pub timestamp: Option<Seq<char>>,
    pub image: Option<Seq<char>>,
}

impl View for Embed {
    type V = EmbedView;

    open spec fn view(&self) -> EmbedView {
        EmbedView {
            description: optional_view(self.description),
            url: optional_view(self.url),
            title: optional_view(self.title),
            author: match self.author {
                Some(a) => Some(AuthorView { name: a.name@, icon_url: a.icon_url@, url: a.url@ }),
                None => None,
            },
            footer: optional_view(self.footer),
            color: self.color,
            timestamp: optional_view(self.timestamp),
            image: optional_view(self.image),
        }
    }
}

/// The views of a list of embeds.
pub open spec fn embed_views(embeds: Seq<Embed>) -> Seq<EmbedView> {
    embeds.map_values(|e: Embed| e@)
}

/// The most pictures that a message shows.
pub const MAX_IMAGES: usize = 9;

/// The colour of a moderator's post.
pub const MODERATOR_COLOR: u32 = 0x0277BD;

/// The embed that shows one picture of the post at `url`.
pub open spec fn image_embed(url: Seq<char>, image: Seq<char>) -> EmbedView {
    EmbedView {
        description: None,
        url: Some(url),
        title: None,
        author: None,
        footer: None,
        color: None,
        timestamp: None,
        image: Some(image),
    }
}

/// The embeds that show the first pictures of a post, one each.
pub open spec fn image_embeds(url: Seq<char>, images: Seq<Seq<char>>) -> Seq<EmbedView> {
    Seq::new(
        if images.len() < MAX_IMAGES {
            images.len()
        } else {
            MAX_IMAGES as nat
        },
        |i: int| image_embed(url, images[i]),
    )
}

/// The embed that shows a post under its author's name.
pub open spec fn main_embed(
    post_data: PostData,
    post_md: Seq<char>,
    reply_md: Seq<char>,
    color: u32,
) -> EmbedView {
    EmbedView {
        description: Some(post_content(post_data, post_md, reply_md)),
        url: Some(post_link(post_data, post_data.base_url@)),
        title: Some(post_title(post_data)),
        author: Some(
            AuthorView {
                name: post_data.post.display_username@,
                icon_url: avatar_url(post_data.base_url@, post_data.post.avatar_template@),
                url: post_data.base_url@ + "/u/"@ + post_data.post.username@,
            },
        ),
        footer: None,
        color: Some(color),
        timestamp: Some(post_data.post.created_at@),
        image: None,
    }
}

/// The embeds of a post: the post itself, then its pictures. A category
/// whose colour cannot be read gives none.
pub open spec fn embeds_of(
    post_data: PostData,
    post_md: Seq<char>,
    reply_md: Seq<char>,
    images: Seq<Seq<char>>,
) -> Option<Seq<EmbedView>> {
    match hex_color(post_data.category.color@) {
        Some(color) => Some(
            seq![main_embed(post_data, post_md, reply_md, color as u32)] + image_embeds(
                post_link(post_data, post_data.base_url@),
                images,
            ),
        ),
        None => None,
    }
}

/// The embed that shows a post when the message is sent under the author's
/// own name: the post's number as the title, the author in the footer, and
/// a colour for a moderator's post only.
pub open spec fn impersonated_embed(
    post_data: PostData,
    base_url: Seq<char>,
    post_md: Seq<char>,
    reply_md: Seq<char>,
) -> EmbedView {
    EmbedView {
        description: Some(post_content(post_data, post_md, reply_md)),
        url: Some(post_link(post_data, base_url)),
        title: Some(signed_decimal(post_data.post.post_number as int)),
        author: None,
        footer: Some(post_data.post.username@),
        color: if post_data.post.post_type == MODERATOR_POST {
            Some(MODERATOR_COLOR)
        } else {
            None
        },
        timestamp: Some(post_data.post.updated_at@),
        image: None,
    }
}

fn empty_embed() -> (res: Embed)
    ensures
        res@ == (EmbedView {
            description: None,
            url: None,
            title: None,
            author: None,
            footer: None,
            color: None,
            timestamp: None,
            image: None,
        }),
{
    Embed {
        description: None,
        url: None,
        title: None,
        author: None,
        footer: None,
        color: None,
        timestamp: None,
        image: None,
    }
}

/// Makes one embed for each of the first pictures in `images`.
pub fn image_embeds_from(url: &str, images: &Vec<String>) -> (res: Vec<Embed>)
    ensures
        embed_views(res@) == image_embeds(url@, string_views(images@)),
{
    let mut out: Vec<Embed> = Vec::new();
    let mut i: usize = 0;
    while i < images.len() && i < MAX_IMAGES
        invariant
            i <= images.len(),
            i <= MAX_IMAGES,
            out@.len() == i,
            forall|k: int| 0 <= k < i ==> (#[trigger] out@[k])@ == image_embed(url@, images@[k]@),
        decreases images.len() - i,
    {
        let mut embed = empty_embed();
        embed.url = Some(url.to_owned());
        embed.image = Some(images[i].clone());
        out.push(embed);
        i += 1;
    }
    assert(embed_views(out@) =~= image_embeds(url@, string_views(images@)));
    out
}

/// The pictures of a post as embeds of the post at `url`; avatars are left
/// out.
pub fn get_images(post: &Post, url: &str) -> (res: Vec<Embed>)
    ensures
        embed_views(res@) == image_embeds(url@, image_sources(post.cooked@, "avatar"@)),
{
    let images = extract_imgs_excluding_class(post.cooked.as_str(), "avatar");
    image_embeds_from(url, &images)
}

fn append_embeds(out: &mut Vec<Embed>, more: Vec<Embed>)
    ensures
        embed_views(final(out)@) == embed_views(old(out)@) + embed_views(more@),
{
    let ghost before = out@;
    let mut more = more;
    let ghost added = more@;
    out.append(&mut more);
    assert(embed_views(out@) =~= embed_views(before) + embed_views(added));
}

/// Makes the embeds of a post from its description's parts and its
/// pictures.
pub fn build_embeds(post_data: &PostData, post_md: &str, reply_md: &str, images: &Vec<String>) -> (res:
    Option<Vec<Embed>>)
    ensures
        match embeds_of(*post_data, post_md@, reply_md@, string_views(images@)) {
            Some(embeds) => res is Some && embed_views(res->0@) == embeds,
            None => res is None,
        },
{
    let base_url = post_data.base_url.as_str();
    let url = match get_link(post_data, base_url) {
        Some(url) => url,
        None => {
            return None;
        },
    };
    let media = image_embeds_from(url.as_str(), images);
    let color = match _hex_color_to_int(post_data.category.color.as_str()) {
        Some(color) => color,
        None => {
            return None;
        },
    };
    let description = get_post_content(post_data, post_md, reply_md);
    let title = match get_title(post_data) {
        Some(title) => title,
        None => {
            return None;
        },
    };
    let mut author_url = String::from_str(base_url);
    author_url.append("/u/");
    author_url.append(post_data.post.username.as_str());
    let icon_url = create_embed_author(&post_data.post, base_url).1;
    let mut embed = empty_embed();
    embed.description = Some(description);
    embed.url = Some(url);
    embed.title = Some(title);
    embed.author = Some(
        EmbedAuthor { name: post_data.post.display_username.clone(), icon_url, url: author_url },
    );
    embed.color = Some(color);
    embed.timestamp = Some(post_data.post.created_at.clone());
    let mut out: Vec<Embed> = Vec::new();
    out.push(embed);
    assert(embed_views(out@) =~= seq![main_embed(*post_data, post_md@, reply_md@, color)]);
    append_embeds(&mut out, media);
    Some(out)
}

/// The embeds of a post: the post itself under its author's name, then its
/// pictures.
pub fn create_embeds(post_data: &PostData, post_md: &str, reply_md: &str) -> (res: Option<
    Vec<Embed>,
>)
    ensures
        match embeds_of(
            *post_data,
            post_md@,
            reply_md@,
            image_sources(post_data.post.cooked@, "avatar"@),
        ) {
            Some(embeds) => res is Some && embed_views(res->0@) == embeds,
            None => res is None,
        },
{
    let images = extract_imgs_excluding_class(post_data.post.cooked.as_str(), "avatar");
    build_embeds(post_data, post_md, reply_md, &images)
}

/// Makes the embeds of a post for a message under the author's own name,
/// from the description's parts and the post's pictures.
pub fn build_embeds_impersonate(
    post_data: &PostData,
    base_url: &str,
    post_md: &str,
    reply_md: &str,
    images: &Vec<String>,
) -> (res: Vec<Embed>)
    ensures
        embed_views(res@) == seq![impersonated_embed(*post_data, base_url@, post_md@, reply_md@)]
            + image_embeds(post_link(*post_data, base_url@), string_views(images@)),
{
    let mut out: Vec<Embed> = Vec::new();
    match get_link(post_data, base_url) {
        Some(url) => {
            let media = image_embeds_from(url.as_str(), images);
            let description = get_post_content(post_data, post_md, reply_md);
            let mut title: Vec<char> = Vec::new();
            push_signed_decimal(&mut title, post_data.post.post_number);
            assert(title@ =~= signed_decimal(post_data.post.post_number as int));
            let mut embed = empty_embed();
            embed.description = Some(description);
            embed.url = Some(url);
            embed.title = Some(string_of(&title));
            embed.footer = Some(post_data.post.username.clone());
            embed.timestamp = Some(post_data.post.updated_at.clone());
            if post_data.post.post_type == MODERATOR_POST {
                embed.color = Some(MODERATOR_COLOR);
            }
            out.push(embed);
            assert(embed_views(out@) =~= seq![
                impersonated_embed(*post_data, base_url@, post_md@, reply_md@),
            ]);
            append_embeds(&mut out, media);
        },
        None => {},
    }
    out
}

/// The embeds of a post for a message under the author's own name.
pub fn create_embeds_impersonate(
    post_data: &PostData,
    base_url: &str,
    post_md: &str,
    reply_md: &str,
) -> (res: Vec<Embed>)
    ensures
        embed_views(res@) == seq![impersonated_embed(*post_data, base_url@, post_md@, reply_md@)]
            + image_embeds(
            post_link(*post_data, base_url@),
            image_sources(post_data.post.cooked@, "avatar"@),
        ),
{
    let images = extract_imgs_excluding_class(post_data.post.cooked.as_str(), "avatar");
    build_embeds_impersonate(post_data, base_url, post_md, reply_md, &images)
}

/// `text` with each match of the regular expression `pattern` replaced as
/// `with` says, from the left and without overlap; `None` where `pattern`
/// is no regular expression, or one too large to build.
pub uninterp spec fn regex_replaced(pattern: Seq<char>, text: Seq<char>, with: Seq<char>) -> Option<
    Seq<char>,
>;

/// Calls `Regex::new` and `Regex::replace_all`: the result is the text
/// after the replacements, or `None` where the crate refuses the pattern.
#[verifier::external_body]
fn regex_replace_all(pattern: &str, text: &str, with: &str) -> (res: Option<String>)
    ensures
        match res {
            Some(out) => regex_replaced(pattern@, text@, with@) == Some(out@),
            None => regex_replaced(pattern@, text@, with@) is None,
        },
{
    Regex::new(pattern).ok().map(|re| re.replace_all(text, with).into_owned())
}

/// The most characters of a description in its raw form.
pub const RAW_DESCRIPTION_CHARS: usize = 4000;

/// A raw description made fit for a message: the word `Media` in place of
/// each picture written in Markdown, and no more than the most characters.
/// Where the pictures cannot be looked for, the text is only cut.
pub open spec fn tidied(text: Seq<char>) -> Seq<char> {
    prefix_chars(
        match regex_replaced("!\\[.*?\\]\\(.*?\\)"@, text, "Media"@) {
            Some(out) => out,
            None => text,
        },
        RAW_DESCRIPTION_CHARS as nat,
    )
}

/// Makes a raw description fit for a message.
pub fn _tidy_description(input: &mut String)
    ensures
        final(input)@ == tidied(old(input)@),
{
    let replaced = match regex_replace_all("!\\[.*?\\]\\(.*?\\)", input.as_str(), "Media") {
        Some(out) => out,
        None => input.clone(),
    };
    *input = trim_to_n_chars(replaced.as_str(), RAW_DESCRIPTION_CHARS);
}

/// The member `key` as it is, or null where it is missing.
pub open spec fn member_or_null(j: Json, key: Seq<char>) -> JsonView {
    match j.member(key) {
        Some(v) => v@,
        None => JsonView::Null,
    }
}

/// The colour of the category that `category` holds under `category`.
pub open spec fn legacy_color(category: Json) -> Option<int> {
    match category.member("category"@) {
        Some(inner) => match text_member(inner, "color"@) {
            Some(hex) => hex_color(hex),
            None => None,
        },
        None => None,
    }
}

/// The topic's `id` and the post's `post_number` as JSON writes them, each
/// where the member is there. Whatever kind of value the member is, its
/// text goes into the address and the title as it stands.
pub struct LegacyIds {
    pub topic_id: Option<String>,
    pub post_number: Option<String>,
}

/// Whether the post, its topic and its category hold what the embed of the
/// post is made from, but for the post's text.
pub open spec fn legacy_parts(post: Json, topic: Json, category: Json, ids: LegacyIds) -> bool {
    &&& legacy_color(category) is Some
    &&& ids.topic_id is Some
    &&& ids.post_number is Some
    &&& text_member(post, "avatar_template"@) is Some
    &&& text_member(topic, "title"@) is Some
    &&& text_member(post, "username"@) is Some
}

/// Whether the post, its topic and its category hold all that the embeds
/// are made from.
pub open spec fn legacy_complete(post: Json, topic: Json, category: Json, ids: LegacyIds) -> bool {
    &&& legacy_parts(post, topic, category, ids)
    &&& text_member(post, "raw"@) is Some
    &&& text_member(post, "cooked"@) is Some
}

/// The address of the post in the embeds made from JSON.
pub open spec fn legacy_url(base_url: Seq<char>, ids: LegacyIds) -> Seq<char> {
    base_url + "/t/"@ + ids.topic_id->0@ + "/"@ + ids.post_number->0@
}

/// The description in the embeds made from JSON: the raw text made fit,
/// under a heading where the post is a reply.
pub open spec fn legacy_description(post: Json, is_reply: bool) -> Seq<char> {
    if is_reply {
        "Replying to post:\n"@ + tidied(text_member(post, "raw"@)->0)
    } else {
        tidied(text_member(post, "raw"@)->0)
    }
}

/// The embed that shows the post, as JSON, with `description` as its text.
pub open spec fn legacy_main(
    base_url: Seq<char>,
    post: Json,
    topic: Json,
    category: Json,
    ids: LegacyIds,
    description: Seq<char>,
) -> JsonView {
    JsonView::Object(
        seq![
            (
                "title"@,
                JsonView::Text(text_member(topic, "title"@)->0 + " #"@ + ids.post_number->0@),
            ),
            ("url"@, JsonView::Text(legacy_url(base_url, ids))),
            ("description"@, JsonView::Text(description)),
            (
                "color"@,
                JsonView::Number(JsonNumber::PosInt(legacy_color(category)->0 as u64)),
            ),
            ("timestamp"@, member_or_null(post, "created_at"@)),
            (
                "author"@,
                JsonView::Object(
                    seq![
                        ("name"@, member_or_null(post, "display_username"@)),
                        (
                            "url"@,
                            JsonView::Text(base_url + "/u/"@ + text_member(post, "username"@)->0),
                        ),
                        (
                            "icon_url"@,
                            JsonView::Text(
                                base_url + avatar_path(text_member(post, "avatar_template"@)->0),
                            ),
                        ),
                    ],
                ),
            ),
        ],
    )
}

/// The embed that shows one picture, as JSON.
pub open spec fn legacy_image(url: Seq<char>, image: Seq<char>) -> JsonView {
    JsonView::Object(
        seq![
            ("url"@, JsonView::Text(url)),
            ("image"@, JsonView::Object(seq![("url"@, JsonView::Text(image))])),
        ],
    )
}

/// The embeds that show the first pictures, as JSON.
pub open spec fn legacy_images(url: Seq<char>, images: Seq<Seq<char>>) -> Seq<JsonView> {
    Seq::new(
        if images.len() < MAX_IMAGES {
            images.len()
        } else {
            MAX_IMAGES as nat
        },
        |i: int| legacy_image(url, images[i]),
    )
}

/// The views of a list of JSON values.
pub open spec fn json_views(list: Seq<Json>) -> Seq<JsonView> {
    list.map_values(|j: Json| j@)
}

fn text_json(value: &str) -> (res: Json)
    ensures
        res@ == JsonView::Text(value@),
{
    Json::Text(value.to_owned())
}

fn make_object(members: Vec<(String, Json)>) -> (res: Json)
    ensures
        res@ is Object,
        res@->Object_0.len() == members@.len(),
        forall|k: int|
            0 <= k < members@.len() ==> (#[trigger] res@->Object_0[k]) == (
                members@[k].0@,
                members@[k].1@,
            ),
{
    proof {
        lemma_object_view(members@);
    }
    Json::Object(members)
}

fn copy_or_null(j: &Json, key: &str) -> (res: Json)
    ensures
        res@ == member_or_null(*j, key@),
{
    match j.get(key) {
        Some(v) => v.duplicate(),
        None => Json::Null,
    }
}

fn read_legacy_color(category: &Json) -> (res: Option<u32>)
    ensures
        match res {
            Some(color) => legacy_color(*category) == Some(color as int),
            None => legacy_color(*category) is None,
        },
{
    match category.get("category") {
        Some(inner) => match read_text(inner, "color") {
            Some(hex) => _hex_color_to_int(hex.as_str()),
            None => None,
        },
        None => None,
    }
}

/// Makes the embeds of a post, as JSON, from the post, its topic and its
/// category as JSON, the texts of the two ids, the description and the
/// pictures: the post itself, then its first pictures. A member that is
/// missing or of the wrong kind gives `None`.
pub fn legacy_embeds_from(
    base_url: &str,
    post: &Json,
    topic: &Json,
    category: &Json,
    ids: &LegacyIds,
    description: &str,
    images: &Vec<String>,
) -> (res: Option<Vec<Json>>)
    ensures
        match res {
            Some(embeds) => legacy_parts(*post, *topic, *category, *ids) && json_views(embeds@)
                == seq![legacy_main(base_url@, *post, *topic, *category, *ids, description@)]
                + legacy_images(legacy_url(base_url@, *ids), string_views(images@)),
            None => !legacy_parts(*post, *topic, *category, *ids),
        },
{
    let color = match read_legacy_color(category) {
        Some(color) => color,
        None => {
            return None;
        },
    };
    let id = match &ids.topic_id {
        Some(text) => text.as_str(),
        None => {
            return None;
        },
    };
    let number = match &ids.post_number {
        Some(text) => text.as_str(),
        None => {
            return None;
        },
    };
    let mut url = String::from_str(base_url);
    url.append("/t/");
    url.append(id);
    url.append("/");
    url.append(number);
    let template = match read_text(post, "avatar_template") {
        Some(template) => template,
        None => {
            return None;
        },
    };
    let title_text = match read_text(topic, "title") {
        Some(title) => title,
        None => {
            return None;
        },
    };
    let username = match read_text(post, "username") {
        Some(username) => username,
        None => {
            return None;
        },
    };
    let mut title = title_text;
    title.append(" #");
    title.append(number);
    let mut author_url = String::from_str(base_url);
    author_url.append("/u/");
    author_url.append(username.as_str());
    let mut icon_url = chars_of(base_url);
    let path = fill_avatar(template.as_str());
    extend_chars(&mut icon_url, &path);
    let mut author: Vec<(String, Json)> = Vec::new();
    author.push((lit("name"), copy_or_null(post, "display_username")));
    author.push((lit("url"), text_json(author_url.as_str())));
    author.push((lit("icon_url"), text_json(string_of(&icon_url).as_str())));
    let author_json = make_object(author);
    let mut main: Vec<(String, Json)> = Vec::new();
    main.push((lit("title"), text_json(title.as_str())));
    main.push((lit("url"), text_json(url.as_str())));
    main.push((lit("description"), text_json(description)));
    main.push((lit("color"), Json::Number(JsonNumber::PosInt(color as u64))));
    main.push((lit("timestamp"), copy_or_null(post, "created_at")));
    main.push((lit("author"), author_json));
    let main_json = make_object(main);
    proof {
        let expected = legacy_main(base_url@, *post, *topic, *category, *ids, description@);
        assert(author_json@->Object_0 =~= expected->Object_0[5].1->Object_0);
        assert(main_json@->Object_0 =~= expected->Object_0);
    }
    let mut out: Vec<Json> = Vec::new();
    out.push(main_json);
    let mut i: usize = 0;
    while i < images.len() && i < MAX_IMAGES
        invariant
            i <= images.len(),
            i <= MAX_IMAGES,
            out@.len() == i + 1,
            out@[0]@ == legacy_main(base_url@, *post, *topic, *category, *ids, description@),
            forall|k: int|
                0 <= k < i ==> (#[trigger] out@[k + 1])@ == legacy_image(url@, images@[k]@),
        decreases images.len() - i,
    {
        let mut inner: Vec<(String, Json)> = Vec::new();
        inner.push((lit("url"), text_json(images[i].as_str())));
        let inner_json = make_object(inner);
        let mut members: Vec<(String, Json)> = Vec::new();
        members.push((lit("url"), text_json(url.as_str())));
        members.push((lit("image"), inner_json));
        let image_json = make_object(members);
        proof {
            let expected = legacy_image(url@, images@[i as int]@);
            assert(inner_json@->Object_0 =~= expected->Object_0[1].1->Object_0);
            assert(image_json@->Object_0 =~= expected->Object_0);
        }
        out.push(image_json);
        i += 1;
    }
    proof {
        let listed = string_views(images@);
        let expected = seq![
            legacy_main(base_url@, *post, *topic, *category, *ids, description@),
        ] + legacy_images(url@, listed);
        assert(json_views(out@).len() == expected.len());
        assert forall|k: int| 0 <= k < expected.len() implies json_views(out@)[k]
            == expected[k] by {
            if k > 0 {
                assert(out@[(k - 1) + 1]@ == legacy_image(url@, images@[k - 1]@));
                assert(listed[k - 1] == images@[k - 1]@);
            }
        }
        assert(json_views(out@) =~= expected);
    }
    Some(out)
}

/// Makes the embeds of a post, as JSON, from the post, its topic and its
/// category as JSON: the post itself, then its first pictures. The post's
/// raw text, made fit, is the description, under a heading where the post
/// is a reply; its pictures are those of its HTML, avatars left out. `ids`
/// holds the texts of the topic's id and of the post's number. A member
/// that is missing or of the wrong kind gives `None`.
pub fn _create_embeds(
    base_url: &str,
    post: &Json,
    replying_to_post: &Option<Json>,
    topic: &Json,
    category: &Json,
    ids: &LegacyIds,
) -> (res: Option<Vec<Json>>)
    ensures
        match res {
            Some(embeds) => legacy_complete(*post, *topic, *category, *ids) && json_views(embeds@)
                == seq![
                legacy_main(
                    base_url@,
                    *post,
                    *topic,
                    *category,
                    *ids,
                    legacy_description(*post, *replying_to_post is Some),
                ),
            ] + legacy_images(
                legacy_url(base_url@, *ids),
                image_sources(text_member(*post, "cooked"@)->0, "avatar"@),
            ),
            None => !legacy_complete(*post, *topic, *category, *ids),
        },
{
    let mut raw = match read_text(post, "raw") {
        Some(raw) => raw,
        None => {
            return None;
        },
    };
    _tidy_description(&mut raw);
    match replying_to_post {
        Some(_) => {
            let mut headed = String::from_str("Replying to post:\n");
            headed.append(raw.as_str());
            raw = headed;
        },
        None => {},
    }
    let html = match read_text(post, "cooked") {
        Some(html) => html,
        None => {
            return None;
        },
    };
    let media = extract_imgs_excluding_class(html.as_str(), "avatar");
    legacy_embeds_from(base_url, post, topic, category, ids, raw.as_str(), &media)
}

} // verus!
