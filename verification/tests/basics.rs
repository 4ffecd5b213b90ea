use agent_browser::json::{Fields, Items, Json, Num, Real};
use agent_browser::number::{decimal_text, parse_i64};
use agent_browser::outside::{base64_of, unix_timestamp_millis, whole_millis};
use agent_browser::text::{
    contains, join, same_ignoring_case, split, split_once, split_trimmed, to_ascii_lower, trim,
};

fn convert(v: &serde_json::Value) -> Json {
    match v {
        serde_json::Value::Null => Json::Null,
        serde_json::Value::Bool(b) => Json::Bool(*b),
        serde_json::Value::Number(n) => Json::Number(if let Some(u) = n.as_u64() {
            Num::Unsigned(u)
        } else if let Some(i) = n.as_i64() {
            Num::Negative(i)
        } else {
            Num::Float(Real { bits: n.as_f64().unwrap().to_bits() })
        }),
        serde_json::Value::String(s) => Json::Str(s.clone()),
        serde_json::Value::Array(a) => Json::Array(a.iter().map(convert).collect()),
        serde_json::Value::Object(m) => {
            Json::Object(m.iter().map(|(k, v)| (k.clone(), convert(v))).collect())
        }
    }
}

fn parse(text: &str) -> Json {
    convert(&serde_json::from_str(text).unwrap())
}

fn show(j: &Json) -> String {
    match j {
        Json::Null => "null".to_string(),
        Json::Bool(b) => b.to_string(),
        Json::Number(Num::Unsigned(n)) => n.to_string(),
        Json::Number(Num::Negative(n)) => n.to_string(),
        Json::Number(Num::Float(x)) => format!("{:?}", f64::from_bits(x.bits)),
        Json::Str(s) => format!("{:?}", s),
        Json::Array(a) => format!("[{}]", a.iter().map(show).collect::<Vec<_>>().join(",")),
        Json::Object(o) => format!(
            "{{{}}}",
            o.iter().map(|(k, v)| format!("{:?}:{}", k, show(v))).collect::<Vec<_>>().join(",")
        ),
    }
}

#[test]
fn trims_unicode_white_space() {
    assert_eq!(trim("  a b\t\n"), "a b");
    assert_eq!(trim("\u{3000}\u{a0}x\u{2003}"), "x");
    assert_eq!(trim("\u{200b}x"), "\u{200b}x");
    assert_eq!(trim(" \r\n "), "");
    assert_eq!(trim(""), "");
    for c in 0..0x3100u32 {
        if let Some(c) = char::from_u32(c) {
            let t = format!("{}x{}", c, c);
            assert_eq!(trim(&t), t.trim(), "{:?}", c);
        }
    }
}

#[test]
fn splits_at_every_separator() {
    assert_eq!(split("a,b\nc", &vec![',', '\n']), vec!["a", "b", "c"]);
    assert_eq!(split("", &vec![',']), vec![""]);
    assert_eq!(split(",x,", &vec![',']), vec!["", "x", ""]);
}

#[test]
fn trimmed_pieces_are_not_empty() {
    assert_eq!(split_trimmed(" a , ,b\n\n c", &vec![',', '\n']), vec!["a", "b", "c"]);
    assert!(split_trimmed(" , ", &vec![',']).is_empty());
}

#[test]
fn splits_once_at_the_first() {
    assert_eq!(split_once("a=b=c", '='), Some(("a", "b=c")));
    assert_eq!(split_once("=", '='), Some(("", "")));
    assert_eq!(split_once("abc", '='), None);
}

#[test]
fn finds_substrings() {
    assert!(contains("https://ex.com/a", "ex.com"));
    assert!(contains("aab", "ab"));
    assert!(contains("x", ""));
    assert!(!contains("x", "xy"));
}

#[test]
fn lowers_ascii_only() {
    assert_eq!(to_ascii_lower("AbÄ"), "abÄ");
    assert!(same_ignoring_case("Document", "dOCUMENT"));
    assert!(!same_ignoring_case("ä", "Ä"));
    assert!(!same_ignoring_case("a", "ab"));
}

#[test]
fn joins_with_a_separator() {
    assert_eq!(join(&vec!["a".to_string(), "b".to_string()], ", "), "a, b");
    assert_eq!(join(&vec![], ", "), "");
}

#[test]
fn decimal_reads_back() {
    for n in [0u128, 7, 10, 123, 9_223_372_036_854_775_807] {
        assert_eq!(parse_i64(&decimal_text(n)), Some(n as i64));
        assert_eq!(decimal_text(n), n.to_string());
    }
    assert_eq!(decimal_text(u128::MAX), u128::MAX.to_string());
}

#[test]
fn reads_integers_as_the_standard_library_does() {
    for t in [
        "0", "-0", "+5", "-5", "", "+", "-", "1a", " 1", "00012", "9223372036854775807",
        "9223372036854775808", "-9223372036854775808", "-9223372036854775809",
        "99999999999999999999999999999999999999999999", "+-1", "--1", "٣",
    ] {
        assert_eq!(parse_i64(t), t.parse::<i64>().ok(), "{:?}", t);
    }
}

#[test]
fn encodes_base64_with_padding() {
    assert_eq!(base64_of("").as_deref(), Some(""));
    assert_eq!(base64_of("f").as_deref(), Some("Zg=="));
    assert_eq!(base64_of("fo").as_deref(), Some("Zm8="));
    assert_eq!(base64_of("foo").as_deref(), Some("Zm9v"));
    assert_eq!(base64_of("foobar").as_deref(), Some("Zm9vYmFy"));
    assert_eq!(base64_of("ÿ>?").as_deref(), Some("w78+Pw=="));
}

#[test]
fn counts_whole_milliseconds() {
    assert_eq!(whole_millis(Some((1, 999_999_999))), 1999);
    assert_eq!(whole_millis(Some((0, 999_999))), 0);
    assert_eq!(whole_millis(None), 0);
}

#[test]
fn the_clock_has_moved_since_1970() {
    let a = unix_timestamp_millis();
    let b = unix_timestamp_millis();
    assert!(a > 1_500_000_000_000);
    assert!(b >= a);
}

#[test]
fn reads_json_values() {
    let v = parse("{\"a\":1,\"b\":-2,\"c\":1.5,\"d\":\"x\",\"e\":true,\"f\":null,\"g\":[\"p\",1,\"q\"],\"h\":{\"k\":\"v\",\"n\":1}}");
    assert_eq!(v.u64_at("a"), Some(1));
    assert_eq!(v.i64_at("b"), Some(-2));
    assert_eq!(v.u64_at("b"), None);
    assert_eq!(v.i64_at("c"), None);
    assert_eq!(v.number_at("c"), Some(Num::Float(Real { bits: 1.5f64.to_bits() })));
    assert_eq!(v.str_at("d"), Some("x"));
    assert_eq!(v.bool_at("e"), Some(true));
    assert!(v.get("f").unwrap().is_null());
    assert_eq!(v.get("g").unwrap().strings(), Some(vec!["p".to_string(), "q".to_string()]));
    assert_eq!(
        v.get("h").unwrap().string_pairs(),
        Some(vec![("k".to_string(), "v".to_string())])
    );
    assert_eq!(v.str_at("zz"), None);
    assert_eq!(parse("[1]").get("a"), None);
    assert_eq!(parse("18446744073709551615").as_i64(), None);
    assert_eq!(show(&v.duplicate()), show(&v));
}

#[test]
fn builds_json_in_order() {
    let mut items = Items::new();
    items.push(Json::integer(-1));
    items.push(Json::integer(3));
    let f = Fields::new().with("z", Json::text("q")).with("a", items.done());
    assert_eq!(show(&f.done()), "{\"z\":\"q\",\"a\":[-1,3]}");
}

#[test]
fn tells_the_sign_of_numbers() {
    let real = |x: f64| Num::Float(Real { bits: x.to_bits() });
    for x in [0.0, -0.0, 1.0, -1.0, f64::MIN_POSITIVE, f64::INFINITY, f64::NEG_INFINITY, f64::NAN] {
        assert_eq!(real(x).is_not_negative(), x >= 0.0, "{}", x);
        assert_eq!(real(x).is_positive(), x > 0.0, "{}", x);
    }
    assert!(Num::Unsigned(0).is_not_negative() && !Num::Unsigned(0).is_positive());
    assert!(!Num::Negative(-1).is_not_negative());
    assert_eq!(Num::of_i64(-3), Num::Negative(-3));
    assert_eq!(Num::of_i64(3), Num::Unsigned(3));
}
