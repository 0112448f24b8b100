use alpaca_rs::json::{JsonNumber, JsonObject, JsonValue};

fn text(s: &str) -> JsonValue {
    JsonValue::String(s.to_string())
}

#[test]
fn parse_reads_every_kind_of_value() {
    let value = JsonValue::parse(
        r#" {"s":"x","n":null,"t":true,"u":7,"i":-3,"a":[1,"two",[]],"o":{"k":false}} "#,
    )
    .unwrap();
    assert_eq!(value.get_str("s"), Some("x"));
    assert_eq!(value.get("n"), Some(&JsonValue::Null));
    assert_eq!(value.get("t"), Some(&JsonValue::Bool(true)));
    assert_eq!(value.get("u"), Some(&JsonValue::Number(JsonNumber::PosInt(7))));
    assert_eq!(value.get("i"), Some(&JsonValue::Number(JsonNumber::NegInt(-3))));
    assert_eq!(
        value.get("a"),
        Some(&JsonValue::Array(vec![
            JsonValue::Number(JsonNumber::PosInt(1)),
            text("two"),
            JsonValue::Array(Vec::new())
        ]))
    );
    assert_eq!(
        value.get("o"),
        Some(&JsonValue::object_with("k", JsonValue::Bool(false)))
    );
    assert_eq!(value.get("missing"), None);
    assert_eq!(value.as_object().map(|o| o.len()), Some(7));
}

#[test]
fn parse_refuses_what_is_no_json() {
    assert_eq!(JsonValue::parse(""), None);
    assert_eq!(JsonValue::parse("{"), None);
    assert_eq!(JsonValue::parse("{\"a\":1,}"), None);
    assert_eq!(JsonValue::parse("\u{00A0}1"), None);
    assert_eq!(JsonValue::parse("1 2"), None);
    assert_eq!(JsonValue::parse("nul"), None);
}

#[test]
fn numbers_that_are_no_integers_are_carried_along() {
    let value = JsonValue::parse("[1.5, 1e3, 18446744073709551615, -9223372036854775808]").unwrap();
    let items = value.as_array().unwrap();
    assert!(matches!(items[0], JsonValue::Number(JsonNumber::Other(_))));
    assert_eq!(items[2], JsonValue::Number(JsonNumber::PosInt(u64::MAX)));
    assert_eq!(items[3], JsonValue::Number(JsonNumber::NegInt(i64::MIN)));
    assert_eq!(
        value.to_string(),
        "[1.5,1000.0,18446744073709551615,-9223372036854775808]"
    );
}

#[test]
fn text_round_trip() {
    let source = r#"{"b":[true,null,{"z":"é\n"}],"a":{"y":-1,"x":0.25}}"#;
    let value = JsonValue::parse(source).unwrap();
    assert_eq!(
        value.to_string(),
        "{\"a\":{\"x\":0.25,\"y\":-1},\"b\":[true,null,{\"z\":\"é\\n\"}]}"
    );
    assert_eq!(JsonValue::parse(&value.to_string()), Some(value));
    let value = JsonValue::parse(source).unwrap();
    assert_eq!(JsonValue::parse(&value.to_string_pretty()), Some(value));
}

#[test]
fn to_string_orders_fields_by_name() {
    let mut object = JsonObject::new();
    object.insert("b".to_string(), JsonValue::Bool(true));
    object.insert("a".to_string(), JsonValue::Null);
    let value = JsonValue::Object(object);
    assert_eq!(value.to_string(), "{\"a\":null,\"b\":true}");
    assert_eq!(
        value.to_string_pretty(),
        "{\n  \"a\": null,\n  \"b\": true\n}"
    );
    assert_ne!(value.to_string(), value.to_string_pretty());
}

#[test]
fn object_insert_get_remove() {
    let mut object = JsonObject::new();
    assert_eq!(object.len(), 0);
    assert_eq!(object.get("a"), None);
    object.insert("a".to_string(), text("1"));
    object.insert("b".to_string(), text("2"));
    object.insert("a".to_string(), text("3"));
    assert_eq!(object.len(), 2);
    assert_eq!(object.get("a"), Some(&text("3")));
    assert_eq!(object.get("b"), Some(&text("2")));
    assert_eq!(object.get("A"), None);
    assert_eq!(object.remove("a"), Some(text("3")));
    assert_eq!(object.remove("a"), None);
    assert_eq!(object.len(), 1);
    assert_eq!(object.get("b"), Some(&text("2")));
}

#[test]
fn value_accessors_tell_kinds_apart() {
    assert_eq!(text("x").as_str(), Some("x"));
    assert_eq!(JsonValue::Null.as_str(), None);
    assert_eq!(text("x").as_array(), None);
    assert_eq!(text("x").as_object(), None);
    assert_eq!(text("x").get("k"), None);
    assert_eq!(JsonValue::Array(vec![text("k")]).get("k"), None);
    let holder = JsonValue::object_with("k", JsonValue::Bool(true));
    assert_eq!(holder.get_str("k"), None);
    assert_eq!(holder.get("k"), Some(&JsonValue::Bool(true)));
}

#[test]
fn set_and_take() {
    let mut value = JsonValue::Null;
    value.set("a", text("1"));
    assert_eq!(value, JsonValue::object_with("a", text("1")));
    value.set("a", text("2"));
    value.set("b", JsonValue::Null);
    assert_eq!(value.get_str("a"), Some("2"));
    assert_eq!(value.take("a"), text("2"));
    assert_eq!(value.take("a"), JsonValue::Null);
    assert_eq!(value, JsonValue::object_with("b", JsonValue::Null));
    let mut other = text("x");
    assert_eq!(other.take("a"), JsonValue::Null);
    assert_eq!(other, text("x"));
}

#[test]
fn constructors() {
    assert_eq!(
        JsonValue::from_strings(&vec!["a".to_string(), "".to_string()]),
        JsonValue::Array(vec![text("a"), text("")])
    );
    assert_eq!(
        JsonValue::object_with_two("k", text("1"), "k", text("2")),
        JsonValue::object_with("k", text("2"))
    );
    assert_eq!(
        JsonValue::object_with_two("a", text("1"), "b", text("2")).to_string(),
        "{\"a\":\"1\",\"b\":\"2\"}"
    );
}
