use forum_stream::md::{
    aside_handler_for, clean_url, get_tag_attr, handled_tags, handler_for, AsideFactory, AsideHandler,
    CustomAnchorFactory, CustomAnchorHandler, CustomImgFactory, CustomImgHandler,
    CustomQuoteFactory, CustomQuoteHandler, DetailsFactory, DetailsHandler, HandlerKind,
    IgnoreFactory, IgnoreHandler, Printer, Tag,
};

fn tag(attrs: &[(&str, &str)]) -> Tag {
    Tag { attrs: attrs.iter().map(|(k, v)| (k.to_string(), v.to_string())).collect() }
}

fn printer(text: &str) -> Printer {
    Printer { data: text.to_string() }
}

#[test]
fn printer_counts_and_edits_by_characters() {
    let mut p = Printer::new();
    assert_eq!(p.len(), 0);
    p.append_str("h\u{e9}llo");
    assert_eq!(p.len(), 5);
    assert_eq!(p.tail(2), "llo");
    assert_eq!(p.tail(5), "");
    p.insert_str(2, "--");
    assert_eq!(p.data, "h\u{e9}--llo");
    p.insert_str(0, "<");
    p.insert_str(8, ">");
    assert_eq!(p.data, "<h\u{e9}--llo>");
    p.truncate(3);
    assert_eq!(p.data, "<h\u{e9}");
    p.truncate(0);
    assert_eq!(p.data, "");
}

#[test]
fn first_attribute_of_a_name_is_read() {
    let t = tag(&[("class", "a"), ("href", "x"), ("class", "b")]);
    assert_eq!(get_tag_attr(&t, "class"), Some("a".to_string()));
    assert_eq!(get_tag_attr(&t, "href"), Some("x".to_string()));
    assert_eq!(get_tag_attr(&t, "src"), None);
    assert_eq!(get_tag_attr(&tag(&[]), "class"), None);
}

#[test]
fn ignore_handler_writes_nothing_and_skips_descendants() {
    let mut h: IgnoreHandler = IgnoreFactory.instantiate();
    let mut p = printer("abc");
    h.handle(&tag(&[("class", "x")]), &mut p);
    h.after_handle(&mut p);
    assert_eq!(p.data, "abc");
    assert!(h.skip_descendants());
}

#[test]
fn picture_is_written_as_a_word() {
    let mut h: CustomImgHandler = CustomImgFactory.instantiate();
    assert!(!h.block_mode);
    let mut p = printer("see ");
    h.handle(&tag(&[("src", "a.png")]), &mut p);
    h.after_handle(&mut p);
    assert_eq!(p.data, "see Image\n");
    assert!(!h.block_mode);
}

#[test]
fn avatar_is_left_out() {
    let mut h = CustomImgFactory.instantiate();
    let mut p = printer("see ");
    h.handle(&tag(&[("src", "a.png"), ("class", "avatar")]), &mut p);
    assert_eq!(p.data, "see ");
    h.handle(&tag(&[("class", "avatar big")]), &mut p);
    assert_eq!(p.data, "see Image\n");
}

#[test]
fn block_mode_is_read_from_the_source_attribute() {
    let mut h = CustomImgFactory.instantiate();
    let mut p = printer("");
    h.handle(&tag(&[("src", "x; display: block; y"), ("class", "avatar")]), &mut p);
    assert!(h.block_mode);
    h.handle(&tag(&[("src", "a.png")]), &mut p);
    assert!(h.block_mode);
    let mut other = CustomImgFactory.instantiate();
    other.handle(&tag(&[("src", "display:block"), ("style", "display: block")]), &mut p);
    assert!(!other.block_mode);
}

#[test]
fn quotation_marks_each_line_that_is_not_blank() {
    assert_eq!(CustomQuoteHandler::quote("one\ntwo"), "\n> one\n> two\n");
    assert_eq!(CustomQuoteHandler::quote(""), "\n");
    assert_eq!(CustomQuoteHandler::quote("\n\n"), "\n");
    assert_eq!(CustomQuoteHandler::quote("   \n\t\n"), "\n");
    assert_eq!(
        CustomQuoteHandler::quote("line one  \n\n  line two\r\nx"),
        "\n> line one\n>   line two\n> x\n"
    );
    assert_eq!(CustomQuoteHandler::quote("a\u{a0}\u{3000}\nb\r"), "\n> a\n> b\n");
}

#[test]
fn quote_handler_rewrites_what_its_children_wrote() {
    let mut h: CustomQuoteHandler = CustomQuoteFactory.instantiate();
    assert_eq!(h.start_pos, 0);
    let mut p = printer("h\u{e9}: ");
    h.handle(&tag(&[]), &mut p);
    assert_eq!(h.start_pos, 4);
    p.append_str("said\nthis ");
    h.after_handle(&mut p);
    assert_eq!(p.data, "h\u{e9}: \n> said\n> this\n");
}

#[test]
fn backslashes_before_url_characters_are_dropped() {
    assert_eq!(clean_url("https://example.com/a\\_b"), "https://example.com/a_b");
    assert_eq!(clean_url("a\\_b\\*c\\"), "a_b\\*c\\");
    assert_eq!(clean_url("\\\\a"), "\\a");
    assert_eq!(clean_url("\\-\\.\\/\\?\\=\\&\\%\\#\\:\\~\\9\\Z"), "-./?=&%#:~9Z");
    assert_eq!(clean_url("\\(\\)\\ \\\u{e9}"), "\\(\\)\\ \\\u{e9}");
    assert_eq!(clean_url(""), "");
    assert_eq!(clean_url("plain"), "plain");
}

#[test]
fn anchor_becomes_a_link() {
    let mut h: CustomAnchorHandler = CustomAnchorFactory.instantiate();
    let mut p = printer("see ");
    h.handle(&tag(&[("href", "https://example.com/a_b")]), &mut p);
    assert_eq!(h.start_pos, 4);
    assert_eq!(h.url, "https://example.com/a_b");
    p.append_str("this page");
    h.after_handle(&mut p);
    assert_eq!(p.data, "see [this page](https://example.com/a_b)");
}

#[test]
fn anchor_that_shows_its_own_address_stays() {
    let mut h = CustomAnchorFactory.instantiate();
    let mut p = printer("see ");
    h.handle(&tag(&[("href", "https://example.com/a_b")]), &mut p);
    p.append_str("https://EXAMPLE.com/a\\_b");
    h.after_handle(&mut p);
    assert_eq!(p.data, "see https://EXAMPLE.com/a\\_b");
}

#[test]
fn anchor_without_address_links_to_nothing() {
    let mut h = CustomAnchorFactory.instantiate();
    let mut p = printer("");
    h.handle(&tag(&[("title", "t")]), &mut p);
    assert_eq!(h.url, "");
    p.append_str("text");
    h.after_handle(&mut p);
    assert_eq!(p.data, "[text]()");
}

#[test]
fn mention_and_named_anchor_stay() {
    let mut mention = CustomAnchorFactory.instantiate();
    let mut p = printer("hi ");
    mention.handle(&tag(&[("class", "mention"), ("href", "/u/bob")]), &mut p);
    assert!(mention.is_mention);
    p.append_str("@bob");
    mention.after_handle(&mut p);
    assert_eq!(p.data, "hi @bob");
    let mut named = CustomAnchorFactory.instantiate();
    named.handle(&tag(&[("name", "top"), ("href", "/x")]), &mut p);
    assert!(named.emit_unchanged);
    assert!(!named.is_mention);
    p.append_str(" top");
    named.after_handle(&mut p);
    assert_eq!(p.data, "hi @bob top");
    let mut other = CustomAnchorFactory.instantiate();
    other.handle(&tag(&[("class", "mention big")]), &mut p);
    assert!(!other.is_mention);
}

#[test]
fn write_link_goes_by_the_flag_it_is_given() {
    let h = CustomAnchorHandler {
        start_pos: 2,
        url: "/x".to_string(),
        emit_unchanged: false,
        is_mention: false,
    };
    let mut p = printer("a b");
    h.write_link(&mut p, true);
    assert_eq!(p.data, "a b");
    h.write_link(&mut p, false);
    assert_eq!(p.data, "a [b](/x)");
}

#[test]
fn details_become_a_spoiler() {
    let mut h: DetailsHandler = DetailsFactory.instantiate();
    let mut p = printer("q: ");
    h.handle(&tag(&[]), &mut p);
    assert_eq!(h.start_pos, 3);
    p.append_str("answer");
    h.after_handle(&mut p);
    assert_eq!(p.data, "q: ||answer||");
    let mut empty = DetailsFactory.instantiate();
    let mut p = printer("");
    empty.handle(&tag(&[]), &mut p);
    empty.after_handle(&mut p);
    assert_eq!(p.data, "||||");
}

#[test]
fn aside_names_whom_it_quotes() {
    let mut h: AsideHandler = AsideFactory.instantiate();
    assert_eq!(h.username, None);
    let mut p = printer("");
    h.handle(&tag(&[("class", "quote"), ("data-username", "bob")]), &mut p);
    assert_eq!(h.username, Some("bob".to_string()));
    p.append_str("\n> hi\n");
    h.after_handle(&mut p);
    assert_eq!(p.data, "\n> hi\n\u{e2}\u{a4}\u{b7} quoting: bob\n");
    assert!(h.skip_descendants());
    let mut nameless = AsideFactory.instantiate();
    let mut p = printer("x");
    nameless.handle(&tag(&[]), &mut p);
    nameless.after_handle(&mut p);
    assert_eq!(p.data, "x");
}

#[test]
fn tags_have_their_handlers() {
    assert_eq!(handler_for("img"), Some(HandlerKind::Img));
    for quote in ["blockquote", "q", "cite", "quote"] {
        assert_eq!(handler_for(quote), Some(HandlerKind::Quote));
        assert_eq!(aside_handler_for(quote), Some(HandlerKind::Quote));
    }
    assert_eq!(handler_for("a"), Some(HandlerKind::Anchor));
    assert_eq!(handler_for("summary"), Some(HandlerKind::Dummy));
    assert_eq!(handler_for("details"), Some(HandlerKind::Details));
    assert_eq!(handler_for("aside"), Some(HandlerKind::Aside));
    assert_eq!(handler_for("div"), None);
    assert_eq!(handler_for("p"), None);
    assert_eq!(handler_for("IMG"), None);
    assert_eq!(aside_handler_for("div"), Some(HandlerKind::Ignore));
    assert_eq!(aside_handler_for("img"), Some(HandlerKind::Img));
    assert_eq!(aside_handler_for("a"), Some(HandlerKind::Anchor));
    assert_eq!(aside_handler_for("summary"), Some(HandlerKind::Dummy));
    assert_eq!(aside_handler_for("details"), Some(HandlerKind::Details));
    assert_eq!(aside_handler_for("aside"), None);
}

#[test]
fn every_handled_tag_has_a_handler_somewhere() {
    let tags = handled_tags();
    assert_eq!(
        tags,
        vec!["img", "blockquote", "q", "cite", "quote", "a", "summary", "details", "aside", "div"]
    );
    for tag in tags {
        assert!(handler_for(tag).is_some() || aside_handler_for(tag).is_some());
    }
}
