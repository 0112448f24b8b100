use alpaca_rs::function::{AlpacaFunction, AlpacaFunctions};
use alpaca_rs::json::JsonValue;

struct MockFunction {
    name: &'static str,
    description: &'static str,
    return_value: &'static str,
}

impl MockFunction {
    fn new(name: &'static str, description: &'static str, return_value: &'static str) -> Self {
        MockFunction {
            name,
            description,
            return_value,
        }
    }
}

impl AlpacaFunction for MockFunction {
    fn execute(&self, _arguments: Option<&JsonValue>) -> Option<String> {
        Some(self.return_value.to_string())
    }

    fn info(&self) -> &'static str {
        "Mock function for testing"
    }

    fn name(&self) -> &'static str {
        self.name
    }

    fn description(&self) -> &'static str {
        self.description
    }
}

struct Picky;

impl AlpacaFunction for Picky {
    fn execute(&self, arguments: Option<&JsonValue>) -> Option<String> {
        arguments.map(|a| a.to_string())
    }

    fn info(&self) -> &'static str {
        "give it arguments"
    }

    fn name(&self) -> &'static str {
        "picky"
    }

    fn description(&self) -> &'static str {
        "Wants arguments"
    }
}

#[test]
fn test_add_function() {
    let mut functions = AlpacaFunctions::new();
    let mock = MockFunction::new("test", "Test function", "test result");

    functions.add_function(Box::new(mock));

    assert_eq!(functions.len(), 1);
    assert!(functions.contains("test"));
}

#[test]
fn test_list_functions() {
    let mut functions = AlpacaFunctions::new();
    functions.add_function(Box::new(MockFunction::new(
        "test1",
        "Test function 1",
        "result1",
    )));
    functions.add_function(Box::new(MockFunction::new(
        "test2",
        "Test function 2",
        "result2",
    )));

    let list = functions.list_functions();

    let json_start = list.find("```json\n").unwrap() + "```json\n".len();
    let json_end = list.rfind("\n```").unwrap();
    let json_str = &list[json_start..json_end];

    let parsed: serde_json::Value = serde_json::from_str(json_str).unwrap();

    assert_eq!(parsed["function"], "list_functions");

    let output = &parsed["output"];
    assert!(output.is_array());
    let array = output.as_array().unwrap();
    assert_eq!(array.len(), 2);

    let contains_test1 = array
        .iter()
        .any(|item| item["function"] == "test1" && item["description"] == "Test function 1");
    let contains_test2 = array
        .iter()
        .any(|item| item["function"] == "test2" && item["description"] == "Test function 2");

    assert!(contains_test1);
    assert!(contains_test2);
}

#[test]
fn test_call_function() {
    let mut functions = AlpacaFunctions::new();
    functions.add_function(Box::new(MockFunction::new(
        "test",
        "Test function",
        "test result",
    )));

    let result = functions.call_function("test", None);
    assert!(result.is_some());
    assert_eq!(result.unwrap(), "test result");
}

#[test]
fn test_call_function_with_arguments() {
    let mut functions = AlpacaFunctions::new();
    functions.add_function(Box::new(MockFunction::new(
        "test",
        "Test function",
        "test result",
    )));

    let args = JsonValue::object_with("param", JsonValue::String("value".to_string()));
    let result = functions.call_function("test", Some(&args));

    assert!(result.is_some());
    assert_eq!(result.unwrap(), "test result");
}

#[test]
fn call_of_unknown_function_lists_the_functions() {
    let mut functions = AlpacaFunctions::new();
    functions.add_function(Box::new(MockFunction::new("a", "A", "ra")));
    let listing = functions.list_functions();
    assert_eq!(
        functions.call_function("missing", None).unwrap(),
        format!(
            "Function 'missing' not found. Available functions are:\n{}",
            listing
        )
    );
    assert_eq!(functions.call_function("list_functions", None).unwrap(), listing);
}

#[test]
fn listing_text_is_exact() {
    let mut functions = AlpacaFunctions::new();
    functions.add_function(Box::new(MockFunction::new("a", "A", "ra")));
    assert_eq!(
        functions.list_functions(),
        "```json\n{\n  \"function\": \"list_functions\",\n  \"output\": [\n    {\n      \"description\": \"A\",\n      \"function\": \"a\"\n    }\n  ]\n}\n```\n"
    );
}

#[test]
fn function_that_returns_nothing_gets_usage_error() {
    let mut functions: AlpacaFunctions<Box<dyn AlpacaFunction>> = AlpacaFunctions::new();
    functions.add_function(Box::new(Picky));
    functions.add_function(Box::new(MockFunction::new("a", "A", "ra")));
    assert_eq!(
        functions.call_function("picky", None).unwrap(),
        "Error: Incorrect usage of function 'picky'. See usage below info below:\ngive it arguments"
    );
    let args = JsonValue::Bool(true);
    assert_eq!(functions.call_function("picky", Some(&args)).unwrap(), "true");
    assert_eq!(functions.call_function("a", None).unwrap(), "ra");
}

#[test]
fn adding_under_the_same_name_replaces() {
    let mut functions = AlpacaFunctions::new();
    functions.add_function(Box::new(MockFunction::new("a", "first", "one")));
    functions.add_function(Box::new(MockFunction::new("b", "other", "other")));
    functions.add_function(Box::new(MockFunction::new("a", "second", "two")));
    assert_eq!(functions.len(), 2);
    assert_eq!(functions.call_function("a", None).unwrap(), "two");
    assert!(functions.list_functions().contains("second"));
    assert!(!functions.list_functions().contains("first"));
}

#[test]
fn intro_mentions_list_functions() {
    let functions: AlpacaFunctions<Box<dyn AlpacaFunction>> = AlpacaFunctions::new();
    assert!(functions.intro().contains("\"function\": \"list_functions\""));
    assert!(functions.intro().starts_with("\nYou have access to 'functions'"));
}
