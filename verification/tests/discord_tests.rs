use forum_stream::discord::{
    _create_embeds, _hex_color_to_int, _tidy_description, build_embeds, build_embeds_impersonate,
    create_embed_author, create_embeds, create_embeds_impersonate, get_admin_action_description,
    get_images, get_link, get_normal_description, get_post_content, get_title, image_embeds_from,
    legacy_embeds_from,
    Category, DiscordMapping, Embed, LegacyIds, Post, PostData, Topic,
};
use forum_stream::html::{contains_word, extract_imgs_excluding_class, sources_without_class, AttrPair};
use forum_stream::json::{Json, JsonNumber};

fn post() -> Post {
    Post {
        username: "bob".to_string(),
        display_username: "Bob B.".to_string(),
        cooked: "<p>Hello <img src=\"a.png\"> <img class=\"avatar\" src=\"me.png\"></p>".to_string(),
        avatar_template: "/user_avatar/forum.example/bob/{size}/1_2.png".to_string(),
        post_number: 7,
        post_type: 1,
        action_code: None,
        action_code_who: None,
        created_at: "2024-01-02T03:04:05Z".to_string(),
        updated_at: "2024-02-03T04:05:06Z".to_string(),
    }
}

fn post_data() -> PostData {
    PostData {
        post: post(),
        replying_to_post: None,
        topic: Topic { id: 42, title: "Topic title".to_string() },
        category: Category { color: "0277BD".to_string() },
        base_url: "https://forum.example".to_string(),
    }
}

fn action(code: &str, who: Option<&str>) -> String {
    let mut p = post();
    p.action_code = Some(code.to_string());
    p.action_code_who = who.map(|w| w.to_string());
    get_admin_action_description(&p)
}

fn text(s: &str) -> Json {
    Json::Text(s.to_string())
}

fn object(members: Vec<(&str, Json)>) -> Json {
    Json::Object(members.into_iter().map(|(k, v)| (k.to_string(), v)).collect())
}

#[test]
fn colours_are_six_hexadecimal_digits() {
    assert_eq!(_hex_color_to_int("#0277BD"), Some(0x0277BD));
    assert_eq!(_hex_color_to_int("0277bd"), Some(161725));
    assert_eq!(_hex_color_to_int("ffffff"), Some(0xffffff));
    assert_eq!(_hex_color_to_int("#000000"), Some(0));
    assert_eq!(_hex_color_to_int("+12345"), Some(0x12345));
    assert_eq!(_hex_color_to_int("#+12345"), Some(0x12345));
    assert_eq!(_hex_color_to_int("12345"), None);
    assert_eq!(_hex_color_to_int("1234567"), None);
    assert_eq!(_hex_color_to_int("#12345G"), None);
    assert_eq!(_hex_color_to_int("-12345"), None);
    assert_eq!(_hex_color_to_int("++1234"), None);
    assert_eq!(_hex_color_to_int("12+345"), None);
    assert_eq!(_hex_color_to_int("##12345"), None);
    assert_eq!(_hex_color_to_int(""), None);
    assert_eq!(_hex_color_to_int("#"), None);
    assert_eq!(_hex_color_to_int("\u{e9}1234"), None);
    assert_eq!(_hex_color_to_int("\u{e9}12345"), None);
    for s in ["#0277BD", "abcdef", "+12345", "12 456", "0x1234", "+-1234"] {
        let body = s.strip_prefix('#').unwrap_or(s);
        let expected = if body.len() != 6 { None } else { u32::from_str_radix(body, 16).ok() };
        assert_eq!(_hex_color_to_int(s), expected);
    }
}

#[test]
fn staff_actions_have_their_words() {
    assert_eq!(action("public_open", None), "Made this topic public");
    assert_eq!(action("open_topic", None), "Converted this to a topic");
    assert_eq!(action("private_topic", None), "Made this topic a personal message");
    assert_eq!(action("split_topic", None), "Split this topic");
    assert_eq!(action("autobumped", None), "Automatically bumped");
    assert_eq!(action("tags_changed", None), "Tags updated");
    assert_eq!(action("category_changed", None), "Category updated");
    assert_eq!(action("autoclosed.enabled", None), "Closed");
    assert_eq!(action("closed.enabled", None), "Closed");
    assert_eq!(action("autoclosed.disabled", None), "Opened");
    assert_eq!(action("closed.disabled", None), "Opened");
    assert_eq!(action("archived.enabled", None), "Archived");
    assert_eq!(action("archived.disabled", None), "Unarchived");
    assert_eq!(action("pinned.enabled", None), "Pinned");
    assert_eq!(action("pinned.disabled", None), "Unpinned");
    assert_eq!(action("pinned_globally.disabled", None), "Unpinned");
    assert_eq!(action("pinned_globally.enabled", None), "Pinned globally");
    assert_eq!(action("visible.enabled", None), "Listed");
    assert_eq!(action("visible.disabled", None), "Unlisted");
    assert_eq!(
        action("banner.enabled", None),
        "Made this a banner. It will appear at the top of every page until it is dismissed by the user."
    );
    assert_eq!(
        action("banner.disabled", None),
        "Removed this banner. It will no longer appear at the top of every page."
    );
    assert_eq!(action("forwarded", None), "Forwarded the above email");
    assert_eq!(action("unknown", Some("bob")), "");
    assert_eq!(action("", None), "");
    assert_eq!(get_admin_action_description(&post()), "");
}

#[test]
fn staff_actions_name_whom_they_are_about() {
    assert_eq!(action("invited_user", Some("bob")), "Invited bob");
    assert_eq!(action("invited_user", None), "Invited a user");
    assert_eq!(action("invited_group", Some("staff")), "Invited group staff");
    assert_eq!(action("invited_group", None), "Invited a group");
    assert_eq!(action("user_left", Some("bob")), "bob removed themselves from this message");
    assert_eq!(action("user_left", None), "A user removed themselves from this message");
    assert_eq!(action("removed_user", Some("bob")), "Removed bob");
    assert_eq!(action("removed_user", None), "Removed a user");
    assert_eq!(action("removed_group", Some("staff")), "Removed staff group");
    assert_eq!(action("removed_group", None), "Removed a group");
    assert_eq!(action("public_open", Some("bob")), "Made this topic public");
}

#[test]
fn plain_post_is_described_by_its_text() {
    let data = post_data();
    assert_eq!(get_normal_description(&data, "Hello there", "ignored"), "Hello there");
    let long: String = "x".repeat(2000);
    assert_eq!(get_normal_description(&data, &long, ""), "x".repeat(1900));
    assert_eq!(get_normal_description(&data, "", ""), "");
}

#[test]
fn reply_is_described_under_a_quotation() {
    let mut data = post_data();
    let mut replied = post();
    replied.username = "alice".to_string();
    data.replying_to_post = Some(replied);
    assert_eq!(
        get_normal_description(&data, "I agree", "hello\r\nworld\n"),
        "> hello\n> world\n\u{2937} replying to: alice\n\nI agree"
    );
    assert_eq!(
        get_normal_description(&data, "I agree", ""),
        "\n\u{2937} replying to: alice\n\nI agree"
    );
    assert_eq!(
        get_normal_description(&data, "I agree", "a\n\nb"),
        "> a\n> \n> b\n\u{2937} replying to: alice\n\nI agree"
    );
}

#[test]
fn long_quotation_and_long_reply_are_cut() {
    let mut data = post_data();
    let mut replied = post();
    replied.username = "alice".to_string();
    data.replying_to_post = Some(replied);
    let quoted: String = "q".repeat(1200);
    let body: String = "b".repeat(1000);
    let expected = format!(
        "> {}\n\u{2937} replying to: alice\n\n{}",
        "q".repeat(998),
        "b".repeat(900)
    );
    assert_eq!(get_normal_description(&data, &body, &quoted), expected);
    let exact: String = "q".repeat(997);
    let expected = format!("> {}\n\u{2937} replying to: alice\n\n", "q".repeat(997));
    assert_eq!(get_normal_description(&data, "", &exact), expected);
}

#[test]
fn staff_action_is_described_in_italics() {
    let mut data = post_data();
    data.post.post_type = 3;
    data.post.action_code = Some("closed.enabled".to_string());
    assert_eq!(get_post_content(&data, "body", ""), "*Closed*");
    data.post.action_code = None;
    assert_eq!(get_post_content(&data, "body", ""), "**");
    data.post.post_type = 1;
    assert_eq!(get_post_content(&data, "body", ""), "body");
    data.post.post_type = 2;
    assert_eq!(get_post_content(&data, "body", ""), "body");
}

#[test]
fn author_link_and_title_are_written() {
    let data = post_data();
    assert_eq!(
        create_embed_author(&data.post, "https://forum.example"),
        (
            "bob".to_string(),
            "https://forum.example//user_avatar/forum.example/bob/144/1_2.png".to_string()
        )
    );
    assert_eq!(
        get_link(&data, "https://forum.example"),
        Some("https://forum.example/t/42/7".to_string())
    );
    assert_eq!(get_title(&data), Some("Topic title #7".to_string()));
    let mut odd = post_data();
    odd.topic.id = -5;
    odd.post.post_number = 0;
    assert_eq!(get_link(&odd, ""), Some("/t/-5/0".to_string()));
    assert_eq!(get_title(&odd), Some("Topic title #0".to_string()));
}

#[test]
fn words_are_found_between_white_space() {
    assert!(contains_word("avatar", "avatar"));
    assert!(contains_word("big avatar", "avatar"));
    assert!(contains_word("avatar\tbig", "avatar"));
    assert!(contains_word("  a  avatar  b ", "avatar"));
    assert!(contains_word("avatars avatar", "avatar"));
    assert!(!contains_word("avatars", "avatar"));
    assert!(!contains_word("my-avatar", "avatar"));
    assert!(!contains_word("", "avatar"));
    assert!(!contains_word("avatar", ""));
    assert!(!contains_word("a b", "a b"));
    assert!(!contains_word("big", "avatar"));
    for (list, word) in [("a b c", "b"), ("ab c", "b"), ("a\u{a0}b", "b"), ("x", "x"), (" ", " ")] {
        assert_eq!(contains_word(list, word), list.split_whitespace().any(|c| c == word));
    }
}

#[test]
fn pictures_are_listed_without_the_excluded_class() {
    let html = "<div><img src=\"a.png\"><img class=\"avatar\" src=\"b.png\">\
                <img class=\"emoji avatar big\" src=\"c.png\"><img class=\"avatars\" src=\"d.png\">\
                <img class=\"x\"><p><img src=\"e.png\" class=\"\"></p></div>";
    assert_eq!(extract_imgs_excluding_class(html, "avatar"), vec!["a.png", "d.png", "e.png"]);
    assert_eq!(
        extract_imgs_excluding_class(html, "x"),
        vec!["a.png", "b.png", "c.png", "d.png", "e.png"]
    );
    assert_eq!(extract_imgs_excluding_class("<p>no pictures</p>", "avatar"), Vec::<String>::new());
    assert_eq!(extract_imgs_excluding_class("", "avatar"), Vec::<String>::new());
}

#[test]
fn sources_are_picked_from_attribute_pairs() {
    let pair = |class: Option<&str>, src: Option<&str>| AttrPair {
        first: class.map(|s| s.to_string()),
        second: src.map(|s| s.to_string()),
    };
    let pairs = vec![
        pair(None, Some("a")),
        pair(Some("avatar"), Some("b")),
        pair(Some("big"), None),
        pair(Some("big"), Some("c")),
    ];
    assert_eq!(sources_without_class(&pairs, "avatar"), vec!["a", "c"]);
    assert_eq!(sources_without_class(&pairs, "big"), vec!["a", "b"]);
    assert_eq!(sources_without_class(&Vec::new(), "big"), Vec::<String>::new());
}

fn shown(e: &Embed) -> (Option<&str>, Option<&str>) {
    (e.url.as_deref(), e.image.as_deref())
}

#[test]
fn at_most_nine_pictures_are_shown() {
    let images: Vec<String> = (0..12).map(|i| format!("{}.png", i)).collect();
    let embeds = image_embeds_from("https://forum.example/t/1/1", &images);
    assert_eq!(embeds.len(), 9);
    for (i, e) in embeds.iter().enumerate() {
        assert_eq!(shown(e), (Some("https://forum.example/t/1/1"), Some(images[i].as_str())));
        assert!(e.description.is_none() && e.title.is_none() && e.author.is_none());
        assert!(e.footer.is_none() && e.color.is_none() && e.timestamp.is_none());
    }
    assert_eq!(image_embeds_from("u", &images[..2].to_vec()).len(), 2);
    assert!(image_embeds_from("u", &Vec::new()).is_empty());
    let from_post = get_images(&post(), "u");
    assert_eq!(from_post.len(), 1);
    assert_eq!(shown(&from_post[0]), (Some("u"), Some("a.png")));
}

#[test]
fn post_becomes_an_embed_and_its_pictures() {
    let data = post_data();
    let embeds = create_embeds(&data, "Hello", "").unwrap();
    assert_eq!(embeds.len(), 2);
    let main = &embeds[0];
    assert_eq!(main.description.as_deref(), Some("Hello"));
    assert_eq!(main.url.as_deref(), Some("https://forum.example/t/42/7"));
    assert_eq!(main.title.as_deref(), Some("Topic title #7"));
    let author = main.author.as_ref().unwrap();
    assert_eq!(author.name, "Bob B.");
    assert_eq!(author.url, "https://forum.example/u/bob");
    assert_eq!(
        author.icon_url,
        "https://forum.example//user_avatar/forum.example/bob/144/1_2.png"
    );
    assert_eq!(main.color, Some(0x0277BD));
    assert_eq!(main.timestamp.as_deref(), Some("2024-01-02T03:04:05Z"));
    assert!(main.footer.is_none() && main.image.is_none());
    assert_eq!(shown(&embeds[1]), (Some("https://forum.example/t/42/7"), Some("a.png")));
}

#[test]
fn unreadable_colour_gives_no_embeds() {
    let mut data = post_data();
    data.category.color = "blue".to_string();
    assert!(create_embeds(&data, "Hello", "").is_none());
    assert!(build_embeds(&data, "Hello", "", &Vec::new()).is_none());
    data.category.color = "#ffffff".to_string();
    let embeds = build_embeds(&data, "Hello", "", &vec!["p.png".to_string()]).unwrap();
    assert_eq!(embeds.len(), 2);
    assert_eq!(embeds[0].color, Some(0xffffff));
    assert_eq!(embeds[1].image.as_deref(), Some("p.png"));
}

#[test]
fn impersonated_post_has_number_footer_and_update_time() {
    let mut data = post_data();
    let embeds = create_embeds_impersonate(&data, "https://other.example", "Hello", "");
    assert_eq!(embeds.len(), 2);
    let main = &embeds[0];
    assert_eq!(main.description.as_deref(), Some("Hello"));
    assert_eq!(main.url.as_deref(), Some("https://other.example/t/42/7"));
    assert_eq!(main.title.as_deref(), Some("7"));
    assert_eq!(main.footer.as_deref(), Some("bob"));
    assert_eq!(main.timestamp.as_deref(), Some("2024-02-03T04:05:06Z"));
    assert_eq!(main.color, None);
    assert!(main.author.is_none() && main.image.is_none());
    assert_eq!(shown(&embeds[1]), (Some("https://other.example/t/42/7"), Some("a.png")));
    data.post.post_type = 2;
    data.category.color = "unreadable".to_string();
    let moderator = build_embeds_impersonate(&data, "b", "Hello", "", &Vec::new());
    assert_eq!(moderator.len(), 1);
    assert_eq!(moderator[0].color, Some(161725));
}

#[test]
fn pictures_in_raw_text_become_a_word() {
    let mut raw = "see ![alt](http://x/y.png) and ![](z) here".to_string();
    _tidy_description(&mut raw);
    assert_eq!(raw, "see Media and Media here");
    let mut plain = "no pictures [link](x)".to_string();
    _tidy_description(&mut plain);
    assert_eq!(plain, "no pictures [link](x)");
    let mut long = format!("![a](b){}", "\u{e9}".repeat(5000));
    _tidy_description(&mut long);
    assert_eq!(long, format!("Media{}", "\u{e9}".repeat(3995)));
}

fn json_post() -> Json {
    object(vec![
        ("id", Json::Number(JsonNumber::PosInt(900))),
        ("post_number", Json::Number(JsonNumber::PosInt(7))),
        ("raw", text("Look ![pic](a.png)")),
        ("avatar_template", text("/avatars/{size}.png")),
        ("created_at", text("2024-01-02T03:04:05Z")),
        ("display_username", text("Bob B.")),
        ("username", text("bob")),
        ("cooked", text("<p>Look <img src=\"a.png\"><img class=\"avatar\" src=\"b.png\"></p>")),
    ])
}

fn json_topic() -> Json {
    object(vec![("id", Json::Number(JsonNumber::PosInt(42))), ("title", text("Topic title"))])
}

fn ids(topic_id: Option<&str>, post_number: Option<&str>) -> LegacyIds {
    LegacyIds {
        topic_id: topic_id.map(|s| s.to_string()),
        post_number: post_number.map(|s| s.to_string()),
    }
}

fn usual_ids() -> LegacyIds {
    ids(Some("42"), Some("7"))
}

fn json_category() -> Json {
    object(vec![("category", object(vec![("color", text("0277BD"))]))])
}

#[test]
fn json_post_becomes_json_embeds() {
    let embeds = _create_embeds(
        "https://forum.example",
        &json_post(),
        &None,
        &json_topic(),
        &json_category(),
        &usual_ids(),
    )
    .unwrap();
    assert_eq!(
        embeds,
        vec![
            object(vec![
                ("title", text("Topic title #7")),
                ("url", text("https://forum.example/t/42/7")),
                ("description", text("Look Media")),
                ("color", Json::Number(JsonNumber::PosInt(161725))),
                ("timestamp", text("2024-01-02T03:04:05Z")),
                (
                    "author",
                    object(vec![
                        ("name", text("Bob B.")),
                        ("url", text("https://forum.example/u/bob")),
                        ("icon_url", text("https://forum.example/avatars/144.png")),
                    ])
                ),
            ]),
            object(vec![
                ("url", text("https://forum.example/t/42/7")),
                ("image", object(vec![("url", text("a.png"))])),
            ]),
        ]
    );
}

#[test]
fn json_reply_is_headed_and_missing_members_are_null() {
    let mut post = json_post();
    if let Json::Object(members) = &mut post {
        members.retain(|(k, _)| k != "created_at" && k != "display_username");
    }
    let replied = object(vec![("id", Json::Number(JsonNumber::PosInt(1))), ("raw", text("before"))]);
    let embeds = _create_embeds("b", &post, &Some(replied), &json_topic(), &json_category(), &usual_ids()).unwrap();
    let main = &embeds[0];
    assert_eq!(main.get("description"), Some(&text("Replying to post:\nLook Media")));
    assert_eq!(main.get("timestamp"), Some(&Json::Null));
    assert_eq!(main.get("author").and_then(|a| a.get("name")), Some(&Json::Null));
}

#[test]
fn json_post_without_a_needed_member_gives_nothing() {
    for missing in ["raw", "avatar_template", "username", "cooked"] {
        let mut post = json_post();
        if let Json::Object(members) = &mut post {
            members.retain(|(k, _)| k != missing);
        }
        assert!(_create_embeds("b", &post, &None, &json_topic(), &json_category(), &usual_ids()).is_none());
    }
    assert!(_create_embeds("b", &json_post(), &None, &object(vec![]), &json_category(), &usual_ids()).is_none());
    for lacking in [ids(None, Some("7")), ids(Some("42"), None), ids(None, None)] {
        assert!(
            _create_embeds("b", &json_post(), &None, &json_topic(), &json_category(), &lacking)
                .is_none()
        );
    }
    assert!(_create_embeds("b", &json_post(), &None, &json_topic(), &object(vec![]), &usual_ids()).is_none());
    let no_title = object(vec![("id", Json::Number(JsonNumber::PosInt(42)))]);
    assert!(_create_embeds("b", &json_post(), &None, &no_title, &json_category(), &usual_ids()).is_none());
    let bad_colour = object(vec![("category", object(vec![("color", text("blue"))]))]);
    assert!(_create_embeds("b", &json_post(), &None, &json_topic(), &bad_colour, &usual_ids()).is_none());
}

#[test]
fn json_ids_go_into_address_and_title_as_they_are_written() {
    for (id, number) in [("-4", "7"), ("\"42\"", "1.5"), ("null", "[1,2]"), ("", "{\"a\":true}")] {
        let embeds = _create_embeds(
            "b",
            &json_post(),
            &None,
            &json_topic(),
            &json_category(),
            &ids(Some(id), Some(number)),
        )
        .unwrap();
        assert_eq!(embeds[0].get("url"), Some(&text(&format!("b/t/{}/{}", id, number))));
        assert_eq!(embeds[0].get("title"), Some(&text(&format!("Topic title #{}", number))));
        assert_eq!(
            embeds[1].get("url"),
            Some(&text(&format!("b/t/{}/{}", id, number)))
        );
    }
}

#[test]
fn mapping_holds_both_ids() {
    let mapping = DiscordMapping { discord_message_id: 5, post_id: 6 };
    assert_eq!(mapping.discord_message_id, 5);
    assert_eq!(mapping.post_id, 6);
}

#[test]
fn json_embeds_take_description_and_pictures_as_given() {
    let images: Vec<String> = (0..12).map(|i| format!("{}.png", i)).collect();
    let embeds = legacy_embeds_from(
        "b",
        &json_post(),
        &json_topic(),
        &json_category(),
        &usual_ids(),
        "given text",
        &images,
    )
    .unwrap();
    assert_eq!(embeds.len(), 10);
    assert_eq!(embeds[0].get("description"), Some(&text("given text")));
    assert_eq!(embeds[0].get("title"), Some(&text("Topic title #7")));
    for (i, embed) in embeds[1..].iter().enumerate() {
        assert_eq!(
            *embed,
            object(vec![
                ("url", text("b/t/42/7")),
                ("image", object(vec![("url", text(&format!("{}.png", i)))])),
            ])
        );
    }
    let bare = object(vec![
        ("post_number", Json::Number(JsonNumber::PosInt(7))),
        ("avatar_template", text("{size}")),
        ("username", text("bob")),
    ]);
    let embeds =
        legacy_embeds_from("b", &bare, &json_topic(), &json_category(), &usual_ids(), "", &Vec::new())
            .unwrap();
    assert_eq!(embeds.len(), 1);
    assert_eq!(embeds[0].get("author").and_then(|a| a.get("icon_url")), Some(&text("b144")));
    assert!(_create_embeds("b", &bare, &None, &json_topic(), &json_category(), &usual_ids()).is_none());
}

#[test]
fn json_reply_without_raw_text_is_still_headed() {
    let replied = object(vec![("id", Json::Number(JsonNumber::PosInt(1)))]);
    let embeds =
        _create_embeds("b", &json_post(), &Some(replied), &json_topic(), &json_category(), &usual_ids()).unwrap();
    assert_eq!(embeds[0].get("description"), Some(&text("Replying to post:\nLook Media")));
}
