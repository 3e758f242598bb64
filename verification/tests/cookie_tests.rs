use forum_stream::cookie::{decode_cookie, parse_cookie, CookieData};
use forum_stream::error::FlaresolverrError;
use forum_stream::json::{Json, JsonNumber};

fn text(s: &str) -> Json {
    Json::Text(s.to_string())
}

fn object(members: Vec<(&str, Json)>) -> Json {
    Json::Object(members.into_iter().map(|(k, v)| (k.to_string(), v)).collect())
}

fn plain_cookie(name: &str, value: &str, domain: &str, path: &str) -> CookieData {
    CookieData {
        name: name.to_string(),
        value: value.to_string(),
        domain: domain.to_string(),
        path: path.to_string(),
        expires: None,
        http_only: false,
        secure: false,
        same_site: None,
    }
}

#[test]
fn set_cookie_text_of_a_plain_cookie() {
    let cookie = plain_cookie("a", "1", "example.com", "/");
    assert_eq!(cookie.to_set_cookie_string().unwrap(), "a=1; Path=/; Domain=example.com");
}

#[test]
fn set_cookie_text_leaves_out_empty_path_and_domain() {
    let cookie = plain_cookie("a", "1", "", "");
    assert_eq!(cookie.to_set_cookie_string().unwrap(), "a=1");
}

#[test]
fn set_cookie_text_with_every_attribute() {
    let mut cookie = plain_cookie("sid", "xyz", ".example.com", "/forum");
    cookie.secure = true;
    cookie.http_only = true;
    cookie.same_site = Some("Lax".to_string());
    cookie.expires = Some(1700000000);
    assert_eq!(
        cookie.to_set_cookie_string().unwrap(),
        "sid=xyz; Path=/forum; Domain=.example.com; Secure; HttpOnly; SameSite=Lax; \
         Expires=Tue, 14 Nov 2023 22:13:20 +0000"
    );
}

#[test]
fn expiry_is_written_as_an_rfc_2822_date() {
    let mut cookie = plain_cookie("a", "1", "", "");
    cookie.expires = Some(1700000000);
    assert_eq!(
        cookie.to_set_cookie_string().unwrap(),
        "a=1; Expires=Tue, 14 Nov 2023 22:13:20 +0000"
    );
    cookie.expires = Some(0);
    assert_eq!(
        cookie.to_set_cookie_string().unwrap(),
        "a=1; Expires=Thu, 1 Jan 1970 00:00:00 +0000"
    );
}

#[test]
fn expiry_at_the_ends_of_the_dated_range() {
    let mut cookie = plain_cookie("a", "1", "", "");
    cookie.expires = Some(253_402_300_799);
    assert_eq!(
        cookie.to_set_cookie_string().unwrap(),
        "a=1; Expires=Fri, 31 Dec 9999 23:59:59 +0000"
    );
    cookie.expires = Some(-62_167_219_200);
    assert_eq!(
        cookie.to_set_cookie_string().unwrap(),
        "a=1; Expires=Sat, 1 Jan 0000 00:00:00 +0000"
    );
}

#[test]
fn expiry_outside_the_dated_range_is_a_format_error() {
    let mut cookie = plain_cookie("a", "1", "", "");
    cookie.expires = Some(253_402_300_800);
    assert_eq!(cookie.to_set_cookie_string(), Err(FlaresolverrError::CookieFormatError));
    cookie.expires = Some(-62_167_219_201);
    assert_eq!(cookie.to_set_cookie_string(), Err(FlaresolverrError::CookieFormatError));
    cookie.expires = Some(i64::MAX);
    assert_eq!(cookie.to_set_cookie_string(), Err(FlaresolverrError::CookieFormatError));
    cookie.expires = Some(i64::MIN);
    assert_eq!(cookie.to_set_cookie_string(), Err(FlaresolverrError::CookieFormatError));
}

#[test]
fn leading_dot_is_stripped_from_the_origin() {
    let cookie = plain_cookie("b", "2", ".example.com", "/");
    assert_eq!(cookie.binding_origin().unwrap().as_str(), "https://example.com/");
    let bare = plain_cookie("a", "1", "example.com", "/");
    assert_eq!(bare.binding_origin().unwrap().as_str(), "https://example.com/");
}

#[test]
fn only_one_leading_dot_is_stripped() {
    assert_eq!(forum_stream::cookie::https_origin("..example.com"), "https://.example.com");
    assert_eq!(forum_stream::cookie::https_origin(""), "https://");
    assert_eq!(forum_stream::cookie::https_origin("."), "https://");
}

#[test]
fn origin_is_put_into_normal_form() {
    let cookie = plain_cookie("a", "1", ".EXAMPLE.com", "/");
    assert_eq!(cookie.binding_origin().unwrap().as_str(), "https://example.com/");
    let pathed = plain_cookie("a", "1", "example.com:443/a/../b", "/");
    assert_eq!(pathed.binding_origin().unwrap().as_str(), "https://example.com/b");
}

#[test]
fn unparsable_domain_is_a_url_error() {
    let empty = plain_cookie("a", "1", "", "/");
    assert_eq!(empty.binding_origin().err(), Some(FlaresolverrError::UrlParseError));
    let spaced = plain_cookie("a", "1", "exa mple.com", "/");
    assert_eq!(spaced.binding_origin().err(), Some(FlaresolverrError::UrlParseError));
    let dot = plain_cookie("a", "1", ".", "/");
    assert_eq!(dot.binding_origin().err(), Some(FlaresolverrError::UrlParseError));
}

#[test]
fn cookie_is_decoded_from_its_description() {
    let j = object(vec![
        ("name", text("a")),
        ("value", text("1")),
        ("domain", text(".example.com")),
        ("path", text("/")),
        ("expires", Json::Number(JsonNumber::Real { bits: 1700000000.75f64.to_bits() })),
        ("httpOnly", Json::Bool(true)),
        ("secure", Json::Bool(true)),
        ("sameSite", text("None")),
        ("size", Json::Number(JsonNumber::PosInt(12))),
    ]);
    let cookie = decode_cookie(&j).unwrap();
    assert_eq!(cookie.name, "a");
    assert_eq!(cookie.value, "1");
    assert_eq!(cookie.domain, ".example.com");
    assert_eq!(cookie.path, "/");
    assert_eq!(cookie.expires, Some(1700000000));
    assert!(cookie.http_only);
    assert!(cookie.secure);
    assert_eq!(cookie.same_site, Some("None".to_string()));
}

#[test]
fn optional_cookie_fields_have_defaults() {
    let j = object(vec![
        ("name", text("a")),
        ("value", text("1")),
        ("domain", text("example.com")),
        ("path", text("/")),
        ("expires", Json::Null),
        ("sameSite", Json::Null),
    ]);
    let cookie = decode_cookie(&j).unwrap();
    assert_eq!(cookie.expires, None);
    assert!(!cookie.http_only);
    assert!(!cookie.secure);
    assert_eq!(cookie.same_site, None);
}

#[test]
fn cookie_without_a_required_field_is_a_format_error() {
    for missing in ["name", "value", "domain", "path"] {
        let members: Vec<(&str, Json)> = ["name", "value", "domain", "path"]
            .into_iter()
            .filter(|k| *k != missing)
            .map(|k| (k, text("x")))
            .collect();
        assert_eq!(
            decode_cookie(&object(members)).err(),
            Some(FlaresolverrError::CookieFormatError)
        );
    }
}

#[test]
fn cookie_with_a_mistyped_field_is_a_format_error() {
    let base = || {
        vec![("name", text("a")), ("value", text("1")), ("domain", text("d")), ("path", text("/"))]
    };
    let mut m = base();
    m[0] = ("name", Json::Number(JsonNumber::PosInt(1)));
    assert_eq!(decode_cookie(&object(m)).err(), Some(FlaresolverrError::CookieFormatError));
    let mut m = base();
    m.push(("expires", text("soon")));
    assert_eq!(decode_cookie(&object(m)).err(), Some(FlaresolverrError::CookieFormatError));
    let mut m = base();
    m.push(("httpOnly", Json::Null));
    assert_eq!(decode_cookie(&object(m)).err(), Some(FlaresolverrError::CookieFormatError));
    let mut m = base();
    m.push(("secure", text("yes")));
    assert_eq!(decode_cookie(&object(m)).err(), Some(FlaresolverrError::CookieFormatError));
    let mut m = base();
    m.push(("sameSite", Json::Bool(true)));
    assert_eq!(decode_cookie(&object(m)).err(), Some(FlaresolverrError::CookieFormatError));
    assert_eq!(decode_cookie(&text("a=1")).err(), Some(FlaresolverrError::CookieFormatError));
    assert_eq!(
        decode_cookie(&Json::Array(vec![text("a")])).err(),
        Some(FlaresolverrError::CookieFormatError)
    );
}

#[test]
fn parse_cookie_gives_text_and_origin() {
    let j = object(vec![
        ("name", text("b")),
        ("value", text("2")),
        ("domain", text(".example.com")),
        ("path", text("/")),
    ]);
    let write = parse_cookie(&j).unwrap();
    assert_eq!(write.cookie, "b=2; Path=/; Domain=.example.com");
    assert_eq!(write.origin.as_str(), "https://example.com/");
    assert_eq!(write.name, "b");
    assert_eq!(write.domain, ".example.com");
    assert_eq!(write.path, "/");
}

#[test]
fn parse_cookie_reports_the_first_failure() {
    let undated = object(vec![
        ("name", text("b")),
        ("value", text("2")),
        ("domain", text("")),
        ("path", text("/")),
        ("expires", Json::Number(JsonNumber::PosInt(u64::MAX))),
    ]);
    assert_eq!(parse_cookie(&undated).err(), Some(FlaresolverrError::CookieFormatError));
    let no_origin = object(vec![
        ("name", text("b")),
        ("value", text("2")),
        ("domain", text("")),
        ("path", text("/")),
    ]);
    assert_eq!(parse_cookie(&no_origin).err(), Some(FlaresolverrError::UrlParseError));
    assert_eq!(parse_cookie(&Json::Null).err(), Some(FlaresolverrError::CookieFormatError));
}

#[test]
fn numbers_are_cut_to_whole_seconds() {
    let whole = |f: f64| JsonNumber::Real { bits: f.to_bits() }.to_whole();
    assert_eq!(whole(0.0), 0);
    assert_eq!(whole(-0.0), 0);
    assert_eq!(whole(0.99), 0);
    assert_eq!(whole(-0.99), 0);
    assert_eq!(whole(1.0), 1);
    assert_eq!(whole(1.5), 1);
    assert_eq!(whole(-1.5), -1);
    assert_eq!(whole(1700000000.999), 1700000000);
    assert_eq!(whole(-1700000000.999), -1700000000);
    assert_eq!(whole(4503599627370496.0), 4503599627370496);
    assert_eq!(whole(9007199254740993.0), 9007199254740993.0f64 as i64);
    assert_eq!(whole(1e18), 1_000_000_000_000_000_000);
    assert_eq!(whole(-1e18), -1_000_000_000_000_000_000);
    assert_eq!(whole(9.3e18), i64::MAX);
    assert_eq!(whole(-9.3e18), i64::MIN);
    assert_eq!(whole(-9223372036854775808.0), i64::MIN);
    assert_eq!(whole(f64::INFINITY), i64::MAX);
    assert_eq!(whole(f64::NEG_INFINITY), i64::MIN);
    assert_eq!(whole(f64::NAN), 0);
    assert_eq!(whole(f64::MIN_POSITIVE), 0);
    assert_eq!(whole(5e-324), 0);
    for f in [3.7f64, -2.2, 123456.789, 1e10, -1e15, 2.5e17, 0.1, 1e300, -1e300] {
        assert_eq!(whole(f), f as i64);
    }
    assert_eq!(JsonNumber::PosInt(7).to_whole(), 7);
    assert_eq!(JsonNumber::PosInt(u64::MAX).to_whole(), i64::MAX);
    assert_eq!(JsonNumber::NegInt(-7).to_whole(), -7);
}
