use codemoss::json::{find_entry, parse_json, set_entry, stands_before, Json};
use codemoss::text::{
    concat2, contains, copy_list, cut_before, decimal, find_text, holds, index_of, is_blank, join,
    last_index_of, lower, rest_from, same, same_ignoring_case, split_words, starts_with,
    strip_prefix, trim, trim_end, trim_non_empty, trim_start, white,
};

fn json(text: &str) -> Json {
    match parse_json(text) {
        Some(value) => value,
        None => panic!("no JSON: {}", text),
    }
}

#[test]
fn white_space_is_that_of_unicode() {
    for c in '\0'..='\u{ffff}' {
        assert_eq!(white(c), c.is_whitespace());
    }
    assert_eq!(trim("\u{a0} a b \u{3000}\n"), "a b");
    assert_eq!(trim_start(" \t a "), "a ");
    assert_eq!(trim_end(" a \u{2003}"), " a");
    assert_eq!(trim("  "), "");
    assert!(is_blank(" \u{85} "));
    assert!(!is_blank(" é "));
    assert_eq!(trim_non_empty(Some(" x ")), Some("x"));
    assert_eq!(trim_non_empty(Some(" ")), None);
    assert_eq!(trim_non_empty(None), None);
}

#[test]
fn case_is_that_of_ascii() {
    assert_eq!(lower("AbZ[é]É@"), "AbZ[é]É@".to_ascii_lowercase());
    assert!(same("aé", "aé"));
    assert!(!same("a", "ab"));
    assert!(!same("ab", "ac"));
    assert!(same_ignoring_case("ABz", "abZ"));
    assert!(!same_ignoring_case("É", "é"));
}

#[test]
fn texts_are_searched() {
    assert_eq!(find_text("aXbXX", "XX"), Some(3));
    assert_eq!(find_text("éab", "a"), Some(1));
    assert_eq!(find_text("a", "ab"), None);
    assert_eq!(find_text("abc", ""), Some(0));
    assert!(contains("xyz", "yz"));
    assert!(!contains("xyz", "zy"));
    assert!(starts_with("éa", "é"));
    assert_eq!(strip_prefix("éab", "éa"), Some("b"));
    assert_eq!(strip_prefix("ab", "b"), None);
    assert_eq!(index_of("abcb", 'b'), 1);
    assert_eq!(index_of("abcb", 'x'), 4);
    assert_eq!(last_index_of("abcb", 'b'), Some(3));
    assert_eq!(last_index_of("abcb", 'x'), None);
    assert_eq!(cut_before("a/b/c", '/'), "a");
    assert_eq!(cut_before("abc", '/'), "abc");
    assert_eq!(rest_from("éab", 1), "ab");
}

#[test]
fn texts_are_taken_apart_and_put_together() {
    assert_eq!(split_words("  a\tbc \n\u{3000}d"), vec!["a", "bc", "d"]);
    assert!(split_words("  ").is_empty());
    let parts = vec!["a".to_string(), "b".to_string(), "c".to_string()];
    assert_eq!(join(&parts, ", "), "a, b, c");
    assert_eq!(join(&Vec::new(), ", "), "");
    assert_eq!(concat2("a", "b"), "ab");
    assert_eq!(copy_list(&parts), parts);
    assert!(holds(&parts, "b"));
    assert!(!holds(&parts, "x"));
    for n in [0u32, 7, 10, 99, 100, 4294967295] {
        assert_eq!(decimal(n), n.to_string());
    }
}

#[test]
fn json_is_read_and_written() {
    assert_eq!(parse_json("{"), None);
    assert_eq!(parse_json("null"), Some(Json::Null));
    assert_eq!(parse_json(" true "), Some(Json::Bool(true)));
    assert_eq!(parse_json(r#""a\n""#), Some(Json::Text("a\n".to_string())));
    assert_eq!(parse_json("5").and_then(|n| n.as_i64()), Some(5));
    assert_eq!(parse_json("5.0").and_then(|n| n.as_i64()), None);
    assert_eq!(parse_json("9223372036854775808").and_then(|n| n.as_i64()), None);
    assert_eq!(parse_json("-3").and_then(|n| n.as_i64()), Some(-3));
    assert_eq!(Json::Null.as_i64(), None);
    assert!(json("null").is_null());
    let value = json(r#"{"b": [1, "x"], "a": {"c": null}}"#);
    assert_eq!(value.to_display(), r#"{"a":{"c":null},"b":[1,"x"]}"#);
    assert_eq!(value.to_compact().as_deref(), Some(r#"{"a":{"c":null},"b":[1,"x"]}"#));
    assert_eq!(
        json(r#"{"a": [1]}"#).to_pretty().as_deref(),
        Some("{\n  \"a\": [\n    1\n  ]\n}")
    );
    assert_eq!(value.clone(), value);
    let loose = Json::Object(vec![
        ("b".to_string(), Json::Bool(true)),
        ("a".to_string(), Json::Null),
        ("b".to_string(), Json::Bool(false)),
    ]);
    assert_eq!(loose.to_display(), r#"{"a":null,"b":false}"#);
}

#[test]
fn what_was_set_is_read_back() {
    let mut entries: Vec<(String, Json)> = Vec::new();
    set_entry(&mut entries, "b", Json::Bool(true));
    set_entry(&mut entries, "c", Json::Null);
    set_entry(&mut entries, "a", Json::Null);
    set_entry(&mut entries, "b", Json::Bool(false));
    let keys: Vec<&str> = entries.iter().map(|entry| entry.0.as_str()).collect();
    assert_eq!(keys, vec!["a", "b", "c"]);
    assert_eq!(find_entry(&entries, "b"), Some(&Json::Bool(false)));
    assert_eq!(find_entry(&entries, "x"), None);
    let object = Json::Object(entries);
    assert_eq!(object.get("b"), Some(&Json::Bool(false)));
    assert_eq!(object.get_str("b"), None);
    assert_eq!(Json::Text("t".to_string()).as_str(), Some("t"));
    assert_eq!(Json::Null.get("b"), None);
}

#[test]
fn texts_have_the_order_of_strings() {
    let samples = ["", "a", "ab", "b", "B", "é", "ab\u{0}", "\u{10000}", "\u{ffff}"];
    for a in samples {
        for b in samples {
            assert_eq!(stands_before(a, b), a < b);
        }
    }
}
