//! JSON documents.
use krust_operator::json::{Json, JsonNumber, JsonObject};

fn read(s: &str) -> Json {
    match Json::parse(s) {
        Ok(j) => j,
        Err(e) => panic!("{}", e),
    }
}

#[test]
fn members_are_found() {
    let j = read(r#"{"a": {"b": [1, -2, true, null, "x"]}, "n": 1.5}"#);
    let list = match j.get_in("a", "b") {
        Some(Json::Array(items)) => items,
        _ => panic!("no array"),
    };
    assert_eq!(list.len(), 5);
    assert_eq!(list[0].as_u64(), Some(1));
    assert_eq!(list[1].as_u64(), None);
    assert_eq!(list[1].as_i64(), Some(-2));
    assert_eq!(list[2].as_bool(), Some(true));
    assert!(matches!(list[3], Json::Null));
    assert_eq!(list[4].as_str(), Some("x"));
    assert_eq!(j.u64_at("n"), None);
    assert!(j.get("zzz").is_none());
}

#[test]
fn the_last_of_equal_keys_counts() {
    let mut o = JsonObject::new();
    o.put("k", Json::unsigned(1));
    o.put("k", Json::unsigned(2));
    assert_eq!(o.get("k").and_then(|j| j.as_u64()), Some(2));
    assert_eq!(o.entries().len(), 1);
    assert_eq!(Json::object(o).to_text(), r#"{"k":2}"#);
}

#[test]
fn entries_come_in_order() {
    let j = read(r#"{"b": 1, "a": 2, "c": 3}"#);
    let o = match &j {
        Json::Object(o) => o,
        _ => panic!("no object"),
    };
    let keys: Vec<String> = o.entries().into_iter().map(|e| e.0).collect();
    assert_eq!(keys, vec!["a".to_string(), "b".to_string(), "c".to_string()]);
}

#[test]
fn text_is_read_and_written() {
    let j = read(r#" { "b" : [ 1 , 2.50 , "x\n" ] , "a" : null } "#);
    assert_eq!(j.to_text(), r#"{"a":null,"b":[1,2.5,"x\n"]}"#);
    assert_eq!(j.to_text_pretty(), "{\n  \"a\": null,\n  \"b\": [\n    1,\n    2.5,\n    \"x\\n\"\n  ]\n}");
    assert!(Json::parse("{").is_err());
    let error = match Json::parse("") {
        Ok(_) => panic!("read"),
        Err(e) => e,
    };
    assert!(error.contains("EOF"));
}

#[test]
fn yaml_is_read() {
    let j = match Json::parse_yaml("a: 1\nb:\n  - x\n  - true\n") {
        Ok(j) => j,
        Err(e) => panic!("{}", e),
    };
    assert_eq!(j.to_text(), r#"{"a":1,"b":["x",true]}"#);
    assert!(Json::parse_yaml("a: [").is_err());
}

#[test]
fn values_show_as_their_text() {
    assert_eq!(read("3").show(), "3");
    assert_eq!(read("-3").show(), "-3");
    assert_eq!(read("\"s\"").show(), "s");
    assert_eq!(read("true").show(), "true");
    assert_eq!(read("[1]").show(), "[1]");
    assert_eq!(read("1.5").show(), "1.5");
    assert_eq!(read("null").show(), "null");
}

#[test]
fn plain_text_is_that_of_floats_for_numbers() {
    assert_eq!(read("3").to_plain_text(), Some("3".to_string()));
    assert_eq!(read("18446744073709551615").to_plain_text(), Some("18446744073709552000".to_string()));
    assert_eq!(read("1e3").to_plain_text(), Some("1000".to_string()));
    assert_eq!(read("0.5").to_plain_text(), Some("0.5".to_string()));
    assert_eq!(read("-7").to_plain_text(), Some("-7".to_string()));
    assert_eq!(read("\"t\"").to_plain_text(), Some("t".to_string()));
    assert_eq!(read("false").to_plain_text(), Some("false".to_string()));
}

#[test]
fn copies_are_whole() {
    let j = read(r#"{"a":[{"b":-1.25}],"c":"d"}"#);
    assert_eq!(j.clone().to_text(), j.to_text());
    let n = JsonNumber::Float { text: "0.5".to_string(), display: "0.5".to_string() };
    assert_eq!(Json::Number(n.clone()).to_text(), "0.5");
}
