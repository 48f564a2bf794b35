use ferrix::decimal::decimal;
use ferrix::decimal::signed_decimal;
use ferrix::failure::Failure;
use ferrix::json::Json;
use ferrix::json::JsonObject;
use ferrix::text::comes_before;
use ferrix::text::contains;
use ferrix::text::count_matches;
use ferrix::text::count_places;
use ferrix::text::ends_with;
use ferrix::text::is_blank;
use ferrix::text::is_whitespace;
use ferrix::text::join;
use ferrix::text::replace;
use ferrix::text::split_whitespace;
use ferrix::text::starts_with;
use ferrix::text::to_ascii_lowercase;
use ferrix::text::trim;

const SAMPLES: [&str; 12] = [
    "",
    " ",
    "a",
    " a b\t",
    "\u{2003}x\u{a0}\n",
    "aaa",
    "abab",
    "ÄäÉ",
    "\u{85}\u{3000}",
    "e\u{301}",
    "\u{10ffff}z",
    "zz\u{ffff}",
];

#[test]
fn text_functions_agree_with_the_standard_library() {
    for s in SAMPLES {
        assert_eq!(trim(s), s.trim());
        assert_eq!(is_blank(s), s.trim().is_empty());
        assert_eq!(to_ascii_lowercase(s), s.to_ascii_lowercase());
        let words: Vec<String> = s.split_whitespace().map(str::to_string).collect();
        assert_eq!(split_whitespace(s), words);
        for t in SAMPLES {
            assert_eq!(contains(s, t), s.contains(t));
            assert_eq!(starts_with(s, t), s.starts_with(t));
            assert_eq!(ends_with(s, t), s.ends_with(t));
            assert_eq!(comes_before(s, t), s < t);
            if !t.is_empty() {
                assert_eq!(count_matches(s, t), s.matches(t).count());
                let places = s.char_indices().filter(|(at, _)| s[*at..].starts_with(t));
                assert_eq!(count_places(s, t), places.count());
                assert_eq!(replace(s, t, "<>"), s.replace(t, "<>"));
            }
        }
    }
    let parts = vec!["a".to_string(), "".to_string(), "b".to_string()];
    assert_eq!(join(&parts, ", "), parts.join(", "));
    assert_eq!(join(&Vec::new(), ", "), "");
}

#[test]
fn white_space_is_what_unicode_says() {
    for n in 0..=0x10ffffu32 {
        if let Some(c) = char::from_u32(n) {
            assert_eq!(is_whitespace(c), c.is_whitespace(), "{n:x}");
        }
    }
}

#[test]
fn numbers_are_written_in_decimal() {
    for n in [0, 7, 10, 1_234_567_890, u64::MAX as u128, u128::MAX] {
        assert_eq!(decimal(n), n.to_string());
    }
    for n in [0, -1, 42, i64::MAX, i64::MIN] {
        assert_eq!(signed_decimal(n), n.to_string());
    }
}

#[test]
fn json_goes_through_the_library_unchanged() {
    let text = "{\"a\":[null,true,-3,18446744073709551615,1.5,\"x\\n\"],\"b\":{},\"é\":\"\\\"\"}";
    let value = Json::parse(text).expect("json");
    assert_eq!(value.to_text(), text);
    assert_eq!(value.clone().into_value().to_string(), text);
    assert_eq!(Json::from_value(value.into_value()).to_text(), text);
    let error = Json::parse("[1,").expect_err("cut short");
    assert_eq!(
        error,
        serde_json::from_str::<serde_json::Value>("[1,")
            .unwrap_err()
            .to_string()
    );
    assert!(Json::parse(&"[".repeat(127)).is_err());
    let deep = format!("{}{}", "[".repeat(127), "]".repeat(127));
    assert_eq!(Json::parse(&deep).expect("deep").to_text(), deep);
}

#[test]
fn objects_keep_one_value_under_each_key() {
    let object = JsonObject::new()
        .with("b", Json::Unsigned(1))
        .with("a", Json::Bool(true))
        .with("b", Json::Signed(-2));
    assert_eq!(object.len(), 2);
    assert_eq!(object.get("b").and_then(Json::as_i64), Some(-2));
    assert!(object.get("c").is_none());
    assert_eq!(object.value_at(0).as_bool(), Some(true));
    let value = Json::Object(object.without("a"));
    assert_eq!(value.to_text(), "{\"b\":-2}");
    assert!(value.is_object());
    assert_eq!(value.get("b").and_then(Json::as_u64), None);
    assert_eq!(Json::text("x").as_str(), Some("x"));
    assert!(Json::Null.is_null());
}

#[test]
fn failures_are_chains() {
    let failure = Failure::caused("b".to_string(), "c".to_string()).context("a".to_string());
    assert_eq!(failure.chain, vec!["a", "b", "c"]);
    assert_eq!(failure.message(), "a");
    assert_eq!(Failure { chain: Vec::new() }.message(), "");
}
