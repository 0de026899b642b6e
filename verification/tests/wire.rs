use counter_service::api::assets::PathExtractor;
use counter_service::json::{counter_json, int_str, json_string_of};

#[test]
fn int_str_renders_decimals() {
    assert_eq!(int_str(0), "0");
    assert_eq!(int_str(7), "7");
    assert_eq!(int_str(10), "10");
    assert_eq!(int_str(-1), "-1");
    assert_eq!(int_str(-123), "-123");
    assert_eq!(int_str(i32::MAX), "2147483647");
    assert_eq!(int_str(i32::MIN), "-2147483648");
}

#[test]
fn counter_json_frames_the_count() {
    assert_eq!(counter_json(0), "{\"count\":0}");
    assert_eq!(counter_json(42), "{\"count\":42}");
    assert_eq!(counter_json(-9), "{\"count\":-9}");
    assert_eq!(counter_json(i32::MAX), "{\"count\":2147483647}");
    assert_eq!(counter_json(i32::MIN), "{\"count\":-2147483648}");
}

#[test]
fn json_string_escapes_like_json() {
    assert_eq!(json_string_of("plain"), "\"plain\"");
    assert_eq!(json_string_of(""), "\"\"");
    assert_eq!(json_string_of("say \"hi\""), "\"say \\\"hi\\\"\"");
    assert_eq!(json_string_of("a\\b"), "\"a\\\\b\"");
    assert_eq!(json_string_of("line\nbreak"), "\"line\\nbreak\"");
    assert_eq!(json_string_of("tab\there"), "\"tab\\there\"");
    assert_eq!(json_string_of("cr\rhere"), "\"cr\\rhere\"");
    assert_eq!(json_string_of("bs\u{0008}ff\u{000C}"), "\"bs\\bff\\f\"");
    assert_eq!(json_string_of("nul\u{0000}"), "\"nul\\u0000\"");
    assert_eq!(json_string_of("unit\u{001F}sep"), "\"unit\\u001fsep\"");
    assert_eq!(json_string_of("héllo 日本"), "\"héllo 日本\"");
}

#[test]
fn counter_json_matches_serde_json() {
    for n in [0, 1, -1, 42, -123, i32::MAX, i32::MIN] {
        let mut object = serde_json::Map::new();
        object.insert(String::from("count"), serde_json::Value::from(n));
        let expected = serde_json::to_string(&serde_json::Value::Object(object)).unwrap();
        assert_eq!(counter_json(n), expected);
    }
}

#[test]
fn json_string_matches_serde_json() {
    let samples = [
        "Counter already initialized.",
        "Counter is not initialized!",
        "say \"hi\"",
        "a\\b",
        "line\nbreak\ttab\rcr",
        "bs\u{0008}ff\u{000C}",
        "nul\u{0000}unit\u{001F}one\u{0001}",
        "héllo 日本",
        "",
    ];
    for s in samples {
        let expected = serde_json::to_string(s).unwrap();
        assert_eq!(json_string_of(s), expected);
    }
}

#[test]
fn asset_path_joins_segments() {
    let p = PathExtractor { parts: vec![] };
    assert_eq!(p.asset_path(), "");
    let p = PathExtractor { parts: vec![String::from("index.html")] };
    assert_eq!(p.asset_path(), "index.html");
    let p = PathExtractor {
        parts: vec![String::from("css"), String::from("wing"), String::from("wing.min.css")],
    };
    assert_eq!(p.asset_path(), "css/wing/wing.min.css");
}
