use alpaca_rs::json::JsonValue;
use alpaca_rs::tool_proto::{AlpacaToolParameterType, AlpacaToolProto};

fn text(s: &str) -> JsonValue {
    JsonValue::String(s.to_string())
}

#[test]
fn tool_proto_test_new() {
    let tool = AlpacaToolProto::new();
    assert_eq!(*tool.value(), JsonValue::Null);
}

#[test]
fn tool_proto_test_from_string_valid() {
    let json = r#"{"function":"test_func","parameters":{"param1":"string"}}"#;
    let tool = AlpacaToolProto::from_string(json).unwrap();
    assert_eq!(tool.function().unwrap(), "test_func");
}

#[test]
fn tool_proto_test_from_string_invalid() {
    let json = r#"{"function":invalid_json"#;
    let result = AlpacaToolProto::from_string(json);
    assert!(result.is_err());
}

#[test]
fn tool_proto_test_to_string_pretty() {
    let mut tool_description =
        "this function returns information about files in a directory that match a search "
            .to_string();
    tool_description.push_str("pattern such as the file name, modification date, and file size.");

    let mut tool = AlpacaToolProto::new();
    tool.set_function("file_info");
    tool.set_description(&tool_description);
    tool.add_parameter("path", AlpacaToolParameterType::String);
    tool.add_parameter("search_pattern", AlpacaToolParameterType::String);

    let pretty_string = tool.to_string_pretty();
    println!("{}", pretty_string);
    assert!(pretty_string.contains("file_info"));
    assert!(pretty_string.contains("path"));
    assert!(pretty_string.contains("search_pattern"));
}

#[test]
fn tool_proto_test_function() {
    let mut tool = AlpacaToolProto::new();
    assert_eq!(tool.function(), None);

    tool.set_function("my_function");
    assert_eq!(tool.function().unwrap(), "my_function");
}

#[test]
fn tool_proto_test_set_function() {
    let mut tool = AlpacaToolProto::new();
    tool.set_function("func1");
    assert_eq!(tool.value().get("function"), Some(&text("func1")));

    tool.set_function("func2");
    assert_eq!(tool.value().get("function"), Some(&text("func2")));
}

#[test]
fn test_add_parameter() {
    let mut tool = AlpacaToolProto::new();

    tool.add_parameter("param1", AlpacaToolParameterType::String);
    assert_eq!(
        tool.parameters().unwrap().get("param1"),
        Some(&text("string"))
    );

    tool.add_parameter("param2", AlpacaToolParameterType::Integer);
    assert_eq!(
        tool.parameters().unwrap().get("param2"),
        Some(&text("integer"))
    );

    tool.add_parameter("param3", AlpacaToolParameterType::Boolean);
    assert_eq!(
        tool.parameters().unwrap().get("param3"),
        Some(&text("boolean"))
    );
}

#[test]
fn test_add_parameter_initializes_parameters() {
    let mut tool = AlpacaToolProto::new();
    assert!(tool.parameters().and_then(|p| p.as_object()).is_none());

    tool.add_parameter("param1", AlpacaToolParameterType::String);
    assert!(tool.parameters().and_then(|p| p.as_object()).is_some());
}

#[test]
fn test_parameters() {
    let mut tool = AlpacaToolProto::new();
    assert_eq!(tool.parameters(), None);

    tool.add_parameter("param1", AlpacaToolParameterType::String);
    let params = tool.parameters().unwrap();
    assert!(params.as_object().is_some());
    assert_eq!(params.get("param1"), Some(&text("string")));
}

#[test]
fn test_complete_tool_creation() {
    let mut tool = AlpacaToolProto::new();
    tool.set_function("calculate");
    tool.add_parameter("x", AlpacaToolParameterType::Float);
    tool.add_parameter("y", AlpacaToolParameterType::Float);
    tool.add_parameter("operation", AlpacaToolParameterType::String);

    assert_eq!(tool.function().unwrap(), "calculate");
    let params = tool.parameters().unwrap();
    assert_eq!(params.get("x"), Some(&text("float")));
    assert_eq!(params.get("y"), Some(&text("float")));
    assert_eq!(params.get("operation"), Some(&text("string")));

    let json_str = tool.to_string_pretty();
    assert!(json_str.contains("calculate"));
    assert!(json_str.contains("x"));
    assert!(json_str.contains("y"));
    assert!(json_str.contains("operation"));
    assert!(json_str.contains("float"));
    assert!(json_str.contains("string"));
}

#[test]
fn parameter_type_names() {
    assert_eq!(AlpacaToolParameterType::String.to_string(), "string");
    assert_eq!(AlpacaToolParameterType::Integer.to_string(), "integer");
    assert_eq!(AlpacaToolParameterType::Float.to_string(), "float");
    assert_eq!(AlpacaToolParameterType::Boolean.to_string(), "boolean");
    assert_eq!(AlpacaToolParameterType::Object.to_string(), "object");
    assert_eq!(AlpacaToolParameterType::Array.to_string(), "array");
}

#[test]
fn add_parameter_replaces_parameters_that_are_no_object() {
    let mut tool = AlpacaToolProto::from_string(r#"{"parameters":"none"}"#).unwrap();
    tool.add_parameter("p", AlpacaToolParameterType::Array);
    let params = tool.parameters().unwrap();
    assert_eq!(params.as_object().map(|o| o.len()), Some(1));
    assert_eq!(params.get("p"), Some(&text("array")));
}

#[test]
fn description_round_trip() {
    let mut tool = AlpacaToolProto::new();
    assert_eq!(tool.description(), None);
    tool.set_description("does things");
    assert_eq!(tool.description(), Some("does things"));
    let again = AlpacaToolProto::from_string(&tool.to_string_pretty()).unwrap();
    assert_eq!(again.description(), Some("does things"));
}
