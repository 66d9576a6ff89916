use agent_tools::json::Json;
use agent_tools::text::{
    chars_of, clip, contains_str, decimal_string, find_from, len_in_bytes, same_text, split_words,
    starts_with_str, trim,
};

fn text(s: &str) -> Json {
    Json::Text(s.to_string())
}

fn to_value(j: &Json) -> serde_json::Value {
    match j {
        Json::Null => serde_json::Value::Null,
        Json::Bool(b) => serde_json::Value::Bool(*b),
        Json::Number(n) => serde_json::from_str(n).unwrap(),
        Json::Text(s) => serde_json::Value::String(s.clone()),
        Json::Array(items) => serde_json::Value::Array(items.iter().map(to_value).collect()),
        Json::Object(members) => serde_json::Value::Object(
            members
                .iter()
                .map(|(k, v)| (k.clone(), to_value(v)))
                .collect(),
        ),
    }
}

#[test]
fn json_text_agrees_with_serde_json() {
    let every: String = (0u8..=127u8).map(|b| b as char).collect();
    let values = vec![
        Json::Null,
        Json::Bool(true),
        Json::Bool(false),
        Json::Number("0".to_string()),
        Json::Number("-17".to_string()),
        Json::Number("1.5".to_string()),
        text(""),
        text("plain"),
        text(&every),
        text("é图😀\u{2028}\u{7f}"),
        Json::Array(vec![]),
        Json::Array(vec![Json::Null]),
        Json::Array(vec![Json::Number("1".to_string()), text("a\"b"), Json::Array(vec![])]),
        Json::Object(vec![]),
        Json::Object(vec![("a".to_string(), Json::Null)]),
        Json::Object(vec![
            ("a\n".to_string(), Json::Array(vec![Json::Bool(true), Json::Null])),
            ("b".to_string(), Json::Object(vec![("c".to_string(), text("d"))])),
        ]),
    ];
    for value in &values {
        assert_eq!(value.text(), to_value(value).to_string());
        assert_eq!(&value.copy(), value);
    }
    assert_eq!(text("a\u{1}\u{1f}\"\\").text(), "\"a\\u0001\\u001f\\\"\\\\\"");
}

#[test]
fn members_are_found_by_name() {
    let mut j = Json::Object(vec![("a".to_string(), Json::Null)]);
    j.push_member("b", text("x"));
    assert_eq!(j.get("a"), Some(&Json::Null));
    assert_eq!(j.get("b").unwrap().as_text(), Some(&"x".to_string()));
    assert_eq!(j.get("c"), None);
    assert_eq!(j.get("a").unwrap().as_text(), None);
    assert_eq!(Json::Null.get("a"), None);
}

#[test]
fn white_space_is_what_unicode_says() {
    for c in (0u32..0x11_0000).filter_map(char::from_u32) {
        let s = c.to_string();
        assert_eq!(trim(&s).is_empty(), s.trim().is_empty());
    }
    assert_eq!(trim(" \u{85}a b\u{3000}\n"), "a b");
    assert_eq!(trim(""), "");
    assert_eq!(trim(" \t "), "");
}

#[test]
fn words_are_split_at_white_space() {
    assert_eq!(split_words("  a  bc\u{a0}d "), vec!["a", "bc", "d"]);
    assert_eq!(split_words("   "), Vec::<String>::new());
    assert_eq!(split_words("one"), vec!["one"]);
}

#[test]
fn searches_find_the_first_occurrence() {
    let hay = chars_of("abcabc");
    assert_eq!(find_from(&hay, &chars_of("bc"), 0), Some(1));
    assert_eq!(find_from(&hay, &chars_of("bc"), 2), Some(4));
    assert_eq!(find_from(&hay, &chars_of("bc"), 5), None);
    assert_eq!(find_from(&hay, &chars_of(""), 6), Some(6));
    assert_eq!(find_from(&hay, &chars_of(""), 7), None);
    assert_eq!(find_from(&hay, &chars_of("abcabcd"), 0), None);
    assert!(contains_str("图表", "表"));
    assert!(!contains_str("", "a"));
    assert!(contains_str("a", ""));
    assert!(starts_with_str("abc", "ab"));
    assert!(!starts_with_str("ab", "abc"));
    assert!(same_text("a", "a"));
    assert!(!same_text("a", "b"));
}

#[test]
fn numbers_are_written_in_decimal() {
    for n in [0u64, 7, 10, 99, 100, 12345, u64::MAX] {
        assert_eq!(decimal_string(n), n.to_string());
    }
}

#[test]
fn clipping_keeps_whole_characters() {
    assert_eq!(clip("abc", 2), "ab");
    assert_eq!(clip("abc", 3), "abc");
    assert_eq!(clip("aé", 2), "a");
    assert_eq!(clip("é图😀", 5), "é图");
    assert_eq!(clip("é图😀", 8), "é图");
    assert_eq!(clip("é图😀", 9), "é图😀");
    assert_eq!(clip("图", 0), "");
    assert_eq!(len_in_bytes("é图😀"), 9);
}
