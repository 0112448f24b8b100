use alpaca_rs::json::{JsonNumber, JsonValue};
use alpaca_rs::tool_call::AlpacaToolCall;

#[test]
fn tool_call_test_new() {
    let tool_call = AlpacaToolCall::new();
    assert_eq!(*tool_call.value(), JsonValue::Null);
    assert_eq!(tool_call.function(), None);
}

#[test]
fn tool_call_test_from_string_valid() {
    let json = r#"{"function":"get_weather","arguments":{"location":"New York"}}"#;
    let result = AlpacaToolCall::from_str(json);
    assert!(result.is_ok());

    let tool_call = result.unwrap();
    assert_eq!(tool_call.function(), Some("get_weather"));
    assert_eq!(
        tool_call.argument("location").and_then(|v| v.as_str()),
        Some("New York")
    );
}

#[test]
fn tool_call_test_from_string_invalid() {
    let invalid_json = r#"{"function":"get_weather","arguments":{"location"}"#;
    let result = AlpacaToolCall::from_str(invalid_json);
    assert!(result.is_err());
}

#[test]
fn tool_call_test_function() {
    let mut tool_call = AlpacaToolCall::new();
    assert_eq!(tool_call.function(), None);

    tool_call.set_function("search");
    assert_eq!(tool_call.function(), Some("search"));
}

#[test]
fn tool_call_test_set_function() {
    let mut tool_call = AlpacaToolCall::new();
    let chained = tool_call.set_function("calculate");

    assert!(std::ptr::eq(chained, &mut tool_call));

    assert_eq!(tool_call.function(), Some("calculate"));
}

#[test]
fn test_argument_nonexistent() {
    let tool_call = AlpacaToolCall::new();
    assert_eq!(tool_call.argument("query"), None);
}

#[test]
fn test_add_argument_to_empty() {
    let mut tool_call = AlpacaToolCall::new();
    tool_call.add_argument("query", JsonValue::String("rust programming".to_string()));

    let arg_value = tool_call.argument("query");
    assert!(arg_value.is_some());
    assert_eq!(arg_value.and_then(|v| v.as_str()), Some("rust programming"));
}

#[test]
fn test_add_argument_overwrite() {
    let mut tool_call = AlpacaToolCall::new();
    tool_call.add_argument("query", JsonValue::String("initial value".to_string()));
    tool_call.add_argument("query", JsonValue::String("updated value".to_string()));

    assert_eq!(
        tool_call.argument("query").and_then(|v| v.as_str()),
        Some("updated value")
    );
}

#[test]
fn test_add_argument_chaining() {
    let mut tool_call = AlpacaToolCall::new();
    let result = tool_call
        .set_function("search")
        .add_argument("query", JsonValue::String("rust".to_string()))
        .add_argument("max_results", JsonValue::String("10".to_string()));

    assert!(std::ptr::eq(result, &mut tool_call));

    assert_eq!(tool_call.function(), Some("search"));
    assert_eq!(
        tool_call.argument("query").and_then(|v| v.as_str()),
        Some("rust")
    );
    assert_eq!(
        tool_call.argument("max_results").and_then(|v| v.as_str()),
        Some("10")
    );
}

#[test]
fn tool_call_test_to_string_pretty() {
    let mut tool_call = AlpacaToolCall::new();
    tool_call
        .set_function("search")
        .add_argument("query", JsonValue::String("rust programming".to_string()))
        .add_argument("max_results", JsonValue::Number(JsonNumber::PosInt(10)));

    let pretty_json = tool_call.to_string_pretty();
    println!("{}", pretty_json);

    let parsed_value: serde_json::Value =
        serde_json::from_str(&pretty_json).expect("Should be valid JSON");

    assert_eq!(parsed_value["function"].as_str(), Some("search"));
    assert_eq!(
        parsed_value["arguments"]["query"].as_str(),
        Some("rust programming")
    );
    assert_eq!(parsed_value["arguments"]["max_results"].as_i64(), Some(10));

    assert!(pretty_json.contains("\n"));
    assert!(pretty_json.contains("  "));
}

#[test]
fn test_complete_workflow() {
    let json = r#"{"function":"get_weather","arguments":{"location":"Seattle"}}"#;
    let mut tool_call = AlpacaToolCall::from_str(json).unwrap();

    tool_call
        .set_function("search_weather")
        .add_argument("location", JsonValue::String("Portland".to_string()))
        .add_argument("days", JsonValue::String("5".to_string()));

    assert_eq!(tool_call.function(), Some("search_weather"));
    assert_eq!(
        tool_call.argument("location").and_then(|v| v.as_str()),
        Some("Portland")
    );
    assert_eq!(
        tool_call.argument("days").and_then(|v| v.as_str()),
        Some("5")
    );
}

#[test]
fn add_argument_keeps_other_fields_and_arguments() {
    let json = r#"{"function":"f","arguments":{"a":1},"note":"kept"}"#;
    let mut tool_call = AlpacaToolCall::from_str(json).unwrap();
    tool_call.add_argument("b", JsonValue::Bool(true));
    assert_eq!(tool_call.function(), Some("f"));
    assert_eq!(
        tool_call.argument("a"),
        Some(&JsonValue::Number(JsonNumber::PosInt(1)))
    );
    assert_eq!(tool_call.argument("b"), Some(&JsonValue::Bool(true)));
    assert_eq!(
        tool_call.value().get("note").and_then(|v| v.as_str()),
        Some("kept")
    );
}

#[test]
fn add_argument_replaces_null_arguments() {
    let mut tool_call = AlpacaToolCall::from_str(r#"{"arguments":null}"#).unwrap();
    tool_call.add_argument("k", JsonValue::String("v".to_string()));
    assert_eq!(
        tool_call.argument("k").and_then(|v| v.as_str()),
        Some("v")
    );
}

#[test]
fn function_is_none_when_not_a_string() {
    let tool_call = AlpacaToolCall::from_str(r#"{"function":7}"#).unwrap();
    assert_eq!(tool_call.function(), None);
    let tool_call = AlpacaToolCall::from_str(r#"["function"]"#).unwrap();
    assert_eq!(tool_call.function(), None);
    assert_eq!(tool_call.argument("x"), None);
}
