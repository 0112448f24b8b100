use alpaca_rs::action::{
    fenced, first_of_each, format_response, render_responses, response_action_not_found,
    string_action_response, AlpacaAction, AlpacaActionCatalog, AlpacaActionTrait, AlpacaActions,
    ACTION_NOT_FOUND,
};
use alpaca_rs::action_describe::AlpacaActionDescribe;
use alpaca_rs::action_list::AlpacaActionList;
use alpaca_rs::action_read_directory::{AlpacaActionReadDirectory, ReadDirectoryStep};
use alpaca_rs::action_read_file::{AlpacaActionReadFile, ReadFileStep};
use alpaca_rs::json::{JsonNumber, JsonValue};
use std::cell::Cell;
use std::rc::Rc;

type Registry = AlpacaActions<Box<dyn AlpacaActionTrait>>;

fn list_and_describe() -> Registry {
    let mut actions: Registry = AlpacaActions::empty();
    actions.add_action(Box::new(AlpacaActionList::new()));
    actions.add_action(Box::new(AlpacaActionDescribe::new()));
    actions
}

struct Echo {
    name: &'static str,
}

impl AlpacaActionTrait for Echo {
    fn name(&self) -> &str {
        self.name
    }

    fn description(&self) -> &str {
        "Says what it was asked."
    }

    fn invoke(&self, object: &JsonValue, context: &AlpacaActionCatalog) -> String {
        format!("{}|{}", object.to_string(), context.action_names().join(","))
    }
}

struct CannedDirectory;

impl AlpacaActionTrait for CannedDirectory {
    fn name(&self) -> &str {
        "a directory of two"
    }

    fn description(&self) -> &str {
        "Lists a directory that is always the same."
    }

    fn invoke(&self, object: &JsonValue, _context: &AlpacaActionCatalog) -> String {
        let action = AlpacaActionReadDirectory::new();
        match action.begin(object) {
            ReadDirectoryStep::Reply { response } => response,
            ReadDirectoryStep::List => {
                action.finish(vec!["b.txt".to_string(), "a.txt".to_string()], vec!["src".to_string()])
            }
        }
    }
}

struct CannedFile;

impl AlpacaActionTrait for CannedFile {
    fn name(&self) -> &str {
        "a file"
    }

    fn description(&self) -> &str {
        "Reads a file that is always the same."
    }

    fn invoke(&self, object: &JsonValue, _context: &AlpacaActionCatalog) -> String {
        let action = AlpacaActionReadFile::new();
        match action.begin(object) {
            ReadFileStep::Reply { response } => response,
            ReadFileStep::Read { file_name } => {
                if file_name == "notes.txt" {
                    action.finish(&file_name, Ok("hello".to_string()))
                } else {
                    action.finish(&file_name, Err("not there".to_string()))
                }
            }
        }
    }
}

fn new_registry() -> AlpacaActions<AlpacaAction> {
    AlpacaActions::new(Box::new(CannedDirectory), Box::new(CannedFile))
}

const FIVE_NAMES_RESPONSE: &str = "## Success\n\nHere is the list of available actions:\n```json\n{\n  \"available_actions\": [\n    \"describe_action\",\n    \"list_actions\",\n    \"read_directory\",\n    \"read_file\",\n    \"regex\"\n  ]\n}\n```\n\n";

struct Counter {
    count: Rc<Cell<u32>>,
}

impl AlpacaActionTrait for Counter {
    fn name(&self) -> &str {
        "count"
    }

    fn description(&self) -> &str {
        "Counts its calls."
    }

    fn invoke(&self, _object: &JsonValue, _context: &AlpacaActionCatalog) -> String {
        self.count.set(self.count.get() + 1);
        self.count.get().to_string()
    }
}

const LIST_RESPONSE: &str = "\n# `list_actions` Action Response\n\n## Success\n\nHere is the list of available actions:\n```json\n{\n  \"available_actions\": [\n    \"describe_action\",\n    \"list_actions\"\n  ]\n}\n```\n\n\n";

#[test]
fn one_block_lists_the_registered_actions() {
    let actions = list_and_describe();
    let message = "I will look.\n```json\n{\"action\":\"list_actions\"}\n```\nDone.";
    assert_eq!(actions.invoke(message), Some(LIST_RESPONSE.to_string()));
}

#[test]
fn the_same_block_twice_is_answered_once() {
    let actions = list_and_describe();
    let message =
        "```json\n{\"action\":\"list_actions\"}\n```\nagain\n```json\n{\"action\":\"list_actions\"}\n```\n";
    assert_eq!(actions.invoke(message), Some(LIST_RESPONSE.to_string()));
}

#[test]
fn blocks_that_differ_only_in_field_order_are_answered_once() {
    let mut actions: Registry = AlpacaActions::empty();
    actions.add_action(Box::new(Echo { name: "echo" }));
    let message = "```json\n{\"action\":\"echo\",\"x\":1}\n```\n```json\n{ \"x\": 1, \"action\": \"echo\" }\n```\n";
    assert_eq!(
        actions.invoke(message),
        Some("\n# `echo` Action Response\n\n{\"action\":\"echo\",\"x\":1}|echo\n".to_string())
    );
}

#[test]
fn unknown_action_is_answered_with_not_found_and_hint() {
    let actions = list_and_describe();
    let response = actions
        .invoke("```json\n{\"action\":\"frobnicate\"}\n```")
        .unwrap();
    assert!(response.contains("Action 'frobnicate' not found."));
    assert!(response.contains("not found"));
    assert!(response.contains(ACTION_NOT_FOUND));
    assert!(response.contains("\"action\": \"list_actions\""));
    assert_eq!(
        response,
        format!(
            "\n# `frobnicate` Action Response\n\n## Error\n\nAction 'frobnicate' not found.\n{}\n",
            ACTION_NOT_FOUND
        )
    );
}

#[test]
fn plain_prose_is_no_invocation() {
    let actions = list_and_describe();
    assert_eq!(
        actions.invoke("Nothing to do here, thanks for asking."),
        None
    );
    assert_eq!(actions.invoke(""), None);
}

#[test]
fn two_different_blocks_are_answered_in_order() {
    let actions = list_and_describe();
    let message = "```json\n{\"action\":\"list_actions\"}\n```\nthen\n```json\n{\"action\":\"describe_action\",\"action_name\":\"list_actions\"}\n```\n";
    let response = actions.invoke(message).unwrap();
    let describe = format!(
        "\n# `describe_action` Action Response\n\n## Success\n{}\n\n",
        alpaca_rs::action_list::DESCRIPTION
    );
    assert_eq!(response, format!("{}\n{}", LIST_RESPONSE, describe));
    let first = response.find("# `list_actions` Action Response").unwrap();
    let second = response.find("# `describe_action` Action Response").unwrap();
    assert!(first < second);
    assert_eq!(response.matches("Action Response").count(), 2);
}

#[test]
fn order_of_responses_follows_order_in_text() {
    let mut actions: Registry = AlpacaActions::empty();
    actions.add_action(Box::new(Echo { name: "b" }));
    actions.add_action(Box::new(Echo { name: "a" }));
    let message = "```json\n{\"action\":\"b\"}\n``` ```json\n{\"action\":\"zz\"}\n``` ```json\n{\"action\":\"a\"}\n```";
    assert_eq!(
        actions.invoke(message).unwrap(),
        format!(
            "\n# `b` Action Response\n\n{{\"action\":\"b\"}}|a,b\n\n\n# `zz` Action Response\n\n{}\n\n\n# `a` Action Response\n\n{{\"action\":\"a\"}}|a,b\n",
            response_action_not_found("zz")
        )
    );
}

#[test]
fn whole_message_is_read_where_there_is_no_block() {
    let actions = list_and_describe();
    assert_eq!(
        actions.invoke("  {\"action\": \"list_actions\"}\n"),
        Some(LIST_RESPONSE.to_string())
    );
}

#[test]
fn whole_message_is_not_read_where_there_is_a_block() {
    let mut actions: Registry = AlpacaActions::empty();
    actions.add_action(Box::new(Echo { name: "echo" }));
    let message = "{\"action\":\"echo\",\"note\":\"```json nothing ```\"}";
    assert_eq!(actions.invoke(message), None);
}

#[test]
fn values_without_action_are_skipped() {
    let actions = list_and_describe();
    let message = "```json\n{\"match_count\": 3}\n```\n```json\n{\"action\": 5}\n```\n```json\n[1, 2]\n```\n";
    assert_eq!(actions.invoke(message), None);
    let message = "```json\n{\"match_count\": 3}\n```\n```json\n{\"action\":\"list_actions\"}\n```\n";
    assert_eq!(actions.invoke(message), Some(LIST_RESPONSE.to_string()));
}

#[test]
fn blocks_that_are_no_json_are_dropped() {
    let actions = list_and_describe();
    let message = "```json\n{\"action\": \n```\n```json\n{\"action\":\"list_actions\"}\n```\n";
    assert_eq!(actions.invoke(message), Some(LIST_RESPONSE.to_string()));
    assert_eq!(actions.invoke("```json\n{oops}\n```"), None);
}

#[test]
fn block_without_closing_marker_is_not_found() {
    let actions = list_and_describe();
    assert_eq!(
        actions.invoke("```json\n{\"action\":\"list_actions\"}\n"),
        None
    );
}

#[test]
fn first_closing_marker_ends_the_block() {
    let mut actions: Registry = AlpacaActions::empty();
    actions.add_action(Box::new(Echo { name: "echo" }));
    let message = "```json {\"action\":\"echo\"} ```json {\"action\":\"other\"} ```";
    assert_eq!(
        actions.invoke(message),
        Some("\n# `echo` Action Response\n\n{\"action\":\"echo\"}|echo\n".to_string())
    );
}

#[test]
fn stray_non_breaking_spaces_are_replaced() {
    let actions = list_and_describe();
    let message = "```json\n{<0xC2><0xA0>\"action\":<0xC2><0xA0>\"list_actions\"}\n```";
    assert_eq!(actions.invoke(message), Some(LIST_RESPONSE.to_string()));
    let requests = actions.parse("```json\n{\"a\":\"x<0xC2><0xA0>y\"}\n```");
    assert_eq!(
        requests,
        vec![JsonValue::object_with(
            "a",
            JsonValue::String("x y".to_string())
        )]
    );
}

#[test]
fn unicode_white_space_around_a_block_is_left_out() {
    let actions = list_and_describe();
    let message =
        "```json\u{00A0}\u{2003}\n{\"action\":\"list_actions\"}\u{3000}\u{0085}```";
    assert_eq!(actions.invoke(message), Some(LIST_RESPONSE.to_string()));
}

#[test]
fn parse_keeps_order_and_first_of_equal_values() {
    let actions = list_and_describe();
    let message = "```json\n1\n``` ```json\n2\n``` ```json\n1\n``` ```json\n3\n``` ```json\n2\n```";
    let number = |n: u64| JsonValue::Number(JsonNumber::PosInt(n));
    assert_eq!(actions.parse(message), vec![number(1), number(2), number(3)]);
}

#[test]
fn remove_duplicates_keeps_the_first() {
    let actions = list_and_describe();
    let text = |s: &str| JsonValue::String(s.to_string());
    let values = vec![text("a"), text("b"), text("a"), JsonValue::Null, text("b"), JsonValue::Null];
    assert_eq!(
        actions.remove_duplicates(values),
        vec![text("a"), text("b"), JsonValue::Null]
    );
    assert_eq!(actions.remove_duplicates(Vec::new()), Vec::new());
}

#[test]
fn action_names_are_sorted_whatever_the_order_of_registration() {
    let mut one: Registry = AlpacaActions::empty();
    one.add_action(Box::new(Echo { name: "zeta" }));
    one.add_action(Box::new(Echo { name: "alpha" }));
    one.add_action(Box::new(Echo { name: "Beta" }));
    one.add_action(Box::new(Echo { name: "alp" }));
    let mut other: Registry = AlpacaActions::empty();
    other.add_action(Box::new(Echo { name: "alp" }));
    other.add_action(Box::new(Echo { name: "Beta" }));
    other.add_action(Box::new(Echo { name: "zeta" }));
    other.add_action(Box::new(Echo { name: "alpha" }));
    let expected = vec!["Beta", "alp", "alpha", "zeta"];
    assert_eq!(one.action_names(), expected);
    assert_eq!(other.action_names(), expected);
    assert_eq!(one.catalog().action_names(), expected);
}

#[test]
fn action_names_order_characters_by_code_point() {
    let mut actions: Registry = AlpacaActions::empty();
    actions.add_action(Box::new(Echo { name: "é" }));
    actions.add_action(Box::new(Echo { name: "z" }));
    actions.add_action(Box::new(Echo { name: "" }));
    actions.add_action(Box::new(Echo { name: "\u{10000}" }));
    actions.add_action(Box::new(Echo { name: "\u{FFFF}" }));
    let mut expected = vec!["é", "z", "", "\u{10000}", "\u{FFFF}"];
    expected.sort();
    assert_eq!(actions.action_names(), expected);
    assert_eq!(actions.action_names(), vec!["", "z", "é", "\u{FFFF}", "\u{10000}"]);
}

#[test]
fn new_registry_holds_the_built_in_actions() {
    let actions = new_registry();
    assert_eq!(
        actions.action_names(),
        vec![
            "describe_action",
            "list_actions",
            "read_directory",
            "read_file",
            "regex"
        ]
    );
    assert_eq!(
        actions.describe_action("regex"),
        alpaca_rs::action_regex::DESCRIPTION
    );
    assert_eq!(
        actions.describe_action("read_directory"),
        alpaca_rs::action_read_directory::DESCRIPTION
    );
    assert_eq!(
        actions.describe_action("read_file"),
        alpaca_rs::action_read_file::DESCRIPTION
    );
    assert_eq!(
        actions.describe_action("list_actions"),
        alpaca_rs::action_list::DESCRIPTION
    );
    assert_eq!(
        actions.describe_action("describe_action"),
        alpaca_rs::action_describe::DESCRIPTION
    );
    assert!(matches!(actions.lookup("list_actions"), Some(AlpacaAction::List(_))));
    assert!(matches!(actions.lookup("describe_action"), Some(AlpacaAction::Describe(_))));
    assert!(matches!(actions.lookup("regex"), Some(AlpacaAction::Regex(_))));
    assert!(matches!(actions.lookup("read_file"), Some(AlpacaAction::Other(_))));
    assert!(matches!(actions.lookup("read_directory"), Some(AlpacaAction::Other(_))));
    assert!(actions.lookup("a file").is_none());
}

#[test]
fn list_action_lists_the_five_names_of_a_new_registry() {
    let actions = new_registry();
    let object = JsonValue::object_with("action", JsonValue::String("list_actions".to_string()));
    let response = AlpacaActionList::new().invoke(&object, actions.catalog());
    assert_eq!(response, FIVE_NAMES_RESPONSE);
    let names: Vec<String> = ["describe_action", "list_actions", "read_directory", "read_file", "regex"]
        .iter()
        .map(|s| s.to_string())
        .collect();
    assert_eq!(
        response,
        "## Success\n\nHere is the list of available actions:\n".to_string()
            + &AlpacaActions::blockify(&JsonValue::object_with(
                "available_actions",
                JsonValue::from_strings(&names)
            ))
            + "\n"
    );
}

#[test]
fn new_registry_answers_a_repeated_block_once() {
    let actions = new_registry();
    let block = "```json\n{\"action\":\"list_actions\"}\n```";
    let message = format!("{}\nAgain:\n{}", block, block);
    let once = actions.invoke(block);
    assert_eq!(actions.invoke(&message), once);
    let response = once.unwrap();
    assert_eq!(response.matches("# `list_actions` Action Response").count(), 1);
    assert_eq!(
        response,
        format!("\n# `list_actions` Action Response\n\n{}\n", FIVE_NAMES_RESPONSE)
    );
}

#[test]
fn new_registry_answers_two_blocks_in_order() {
    let actions = new_registry();
    let message = "```json\n{\"action\":\"list_actions\"}\n```\nthen\n```json\n{\"action\":\"describe_action\",\"action_name\":\"list_actions\"}\n```";
    let response = actions.invoke(message).unwrap();
    let list = "# `list_actions` Action Response";
    let describe = "# `describe_action` Action Response";
    assert_eq!(response.matches(list).count(), 1);
    assert_eq!(response.matches(describe).count(), 1);
    assert!(response.find(list).unwrap() < response.find(describe).unwrap());
    assert_eq!(
        response,
        format!(
            "\n# `list_actions` Action Response\n\n{}\n\n\n# `describe_action` Action Response\n\n## Success\n{}\n\n",
            FIVE_NAMES_RESPONSE,
            alpaca_rs::action_list::DESCRIPTION
        )
    );
}

#[test]
fn new_registry_asks_the_given_file_actions() {
    let actions = new_registry();
    assert_eq!(
        actions.invoke("{\"action\":\"read_file\",\"file_name\":\"notes.txt\"}").unwrap(),
        "\n# `read_file` Action Response\n\n```json\n{\n  \"content\": \"hello\"\n}\n```\n\n"
    );
    assert_eq!(
        actions.invoke("{\"action\":\"read_directory\"}").unwrap(),
        "\n# `read_directory` Action Response\n\n## Success\n\nHere are the files and directories in the current directory:\n```json\n{\n  \"directories\": [\n    \"src\"\n  ],\n  \"files\": [\n    \"a.txt\",\n    \"b.txt\"\n  ]\n}\n```\n\n\n"
    );
    assert!(actions
        .invoke("{\"action\":\"a file\"}")
        .unwrap()
        .contains("Action 'a file' not found."));
}

#[test]
fn actions_of_the_library_beside_others() {
    let mut actions = new_registry();
    actions.add_action(AlpacaAction::Other(Box::new(Echo { name: "echo" })));
    assert_eq!(actions.action_names().len(), 6);
    assert_eq!(
        actions.invoke("{\"action\":\"echo\"}").unwrap(),
        "\n# `echo` Action Response\n\n{\"action\":\"echo\"}|describe_action,echo,list_actions,read_directory,read_file,regex\n"
    );
    actions.add_action(AlpacaAction::List(AlpacaActionList::new()));
    assert_eq!(actions.action_names().len(), 6);
}

#[test]
fn registering_a_name_again_replaces_the_action() {
    let mut actions: Registry = AlpacaActions::empty();
    actions.add_action(Box::new(Echo { name: "list_actions" }));
    actions.add_action(Box::new(Echo { name: "other" }));
    assert_eq!(actions.describe_action("list_actions"), "Says what it was asked.");
    actions.add_action(Box::new(AlpacaActionList::new()));
    assert_eq!(actions.action_names(), vec!["list_actions", "other"]);
    assert_eq!(
        actions.describe_action("list_actions"),
        alpaca_rs::action_list::DESCRIPTION
    );
    let response = actions
        .invoke("```json\n{\"action\":\"list_actions\"}\n```")
        .unwrap();
    assert!(response.contains("## Success"));
    let response = actions.invoke("```json\n{\"action\":\"other\"}\n```").unwrap();
    assert_eq!(
        response,
        "\n# `other` Action Response\n\n{\"action\":\"other\"}|list_actions,other\n"
    );
}

#[test]
fn register_enters_under_the_given_name() {
    let mut actions: Registry = AlpacaActions::empty();
    actions.register("alias", "An echo under another name.", Box::new(Echo { name: "echo" }));
    assert_eq!(actions.action_names(), vec!["alias"]);
    assert_eq!(actions.describe_action("alias"), "An echo under another name.");
    assert!(actions.invoke("{\"action\":\"alias\"}").is_some());
}

#[test]
fn describe_action_of_registered_and_unregistered_name() {
    let actions = list_and_describe();
    let description = actions.describe_action("describe_action");
    assert!(!description.is_empty());
    assert_eq!(description, alpaca_rs::action_describe::DESCRIPTION);
    assert_eq!(
        actions.describe_action("nope"),
        response_action_not_found("nope")
    );
    assert_eq!(
        actions.describe_action("nope"),
        format!("## Error\n\nAction 'nope' not found.\n{}", ACTION_NOT_FOUND)
    );
    assert_eq!(actions.describe_action("List_actions"), response_action_not_found("List_actions"));
}

#[test]
fn describe_action_answers() {
    let actions = list_and_describe();
    let response = actions
        .invoke("```json\n{\"action\":\"describe_action\",\"action_name\":\"nope\"}\n```")
        .unwrap();
    assert_eq!(
        response,
        format!(
            "\n# `describe_action` Action Response\n\n## Success\n{}\n\n",
            response_action_not_found("nope")
        )
    );
    let response = actions
        .invoke("```json\n{\"action\":\"describe_action\"}\n```")
        .unwrap();
    assert_eq!(
        response,
        format!(
            "\n# `describe_action` Action Response\n\n## Error\n\nRequest is missing the 'action_name' field.\n{}\n\n",
            alpaca_rs::action_describe::DESCRIPTION
        )
    );
}

#[test]
fn action_list_text() {
    let actions = list_and_describe();
    assert_eq!(
        actions.action_list(),
        "## Available Actions\n\nHere is the list of available actions:\n```json\n{\n  \"actions\": [\n    \"describe_action\",\n    \"list_actions\"\n  ]\n}\n```\n"
    );
    let empty: Registry = AlpacaActions::empty();
    assert_eq!(
        empty.action_list(),
        "## Available Actions\n\nHere is the list of available actions:\n```json\n{\n  \"actions\": []\n}\n```\n"
    );
}

#[test]
fn blockify_renders_fenced_pretty_json() {
    let value = JsonValue::object_with("error", JsonValue::String("no".to_string()));
    assert_eq!(
        AlpacaActions::blockify(&value),
        "```json\n{\n  \"error\": \"no\"\n}\n```\n"
    );
    assert_eq!(alpaca_rs::action::blockify(&JsonValue::Null), "```json\nnull\n```\n");
}

#[test]
fn response_texts() {
    assert_eq!(
        string_action_response("x", "body"),
        "\n# `x` Action Response\n\nbody\n"
    );
    assert_eq!(format_response("Success", "fine"), "## Success\n\nfine\n");
    assert_eq!(render_responses(&Vec::new()), None);
    assert_eq!(
        render_responses(&vec![("a".to_string(), "1".to_string())]),
        Some("\n# `a` Action Response\n\n1\n".to_string())
    );
    assert_eq!(
        render_responses(&vec![
            ("a".to_string(), "1".to_string()),
            ("b".to_string(), "".to_string())
        ]),
        Some("\n# `a` Action Response\n\n1\n\n\n# `b` Action Response\n\n\n".to_string())
    );
}

#[test]
fn later_request_sees_what_an_earlier_one_did() {
    let count = Rc::new(Cell::new(0));
    let mut actions: Registry = AlpacaActions::empty();
    actions.add_action(Box::new(Counter { count: count.clone() }));
    let message = "```json\n{\"action\":\"count\",\"n\":1}\n``` ```json\n{\"action\":\"count\",\"n\":2}\n```";
    assert_eq!(
        actions.invoke(message).unwrap(),
        "\n# `count` Action Response\n\n1\n\n\n# `count` Action Response\n\n2\n"
    );
    assert_eq!(count.get(), 2);
}

#[test]
fn lookup_matches_the_exact_name_only() {
    let actions = list_and_describe();
    assert_eq!(actions.lookup("list_actions").map(|a| a.name()), Some("list_actions"));
    assert_eq!(
        actions.lookup("describe_action").map(|a| a.description()),
        Some(alpaca_rs::action_describe::DESCRIPTION)
    );
    assert!(actions.lookup("list_action").is_none());
    assert!(actions.lookup("LIST_ACTIONS").is_none());
    assert!(actions.lookup(" list_actions").is_none());
    assert!(actions.lookup("").is_none());
}

#[test]
fn dispatch_answers_given_requests() {
    let mut actions: Registry = AlpacaActions::empty();
    actions.add_action(Box::new(Echo { name: "echo" }));
    let text = |s: &str| JsonValue::String(s.to_string());
    let requests = vec![
        JsonValue::object_with("action", text("echo")),
        JsonValue::object_with("other", text("echo")),
        JsonValue::object_with("action", text("echo")),
        JsonValue::object_with("action", text("none")),
    ];
    assert_eq!(
        actions.dispatch(&requests).unwrap(),
        format!(
            "\n# `echo` Action Response\n\n{{\"action\":\"echo\"}}|echo\n\n\n# `echo` Action Response\n\n{{\"action\":\"echo\"}}|echo\n\n\n# `none` Action Response\n\n{}\n",
            response_action_not_found("none")
        )
    );
    assert_eq!(actions.dispatch(&Vec::new()), None);
    assert_eq!(actions.dispatch(&vec![JsonValue::Null, text("action")]), None);
}

#[test]
fn statically_typed_registry() {
    let mut actions = AlpacaActions::empty();
    actions.add_action(AlpacaActionList::new());
    assert_eq!(
        actions.invoke("{\"action\":\"list_actions\"}").unwrap(),
        "\n# `list_actions` Action Response\n\n## Success\n\nHere is the list of available actions:\n```json\n{\n  \"available_actions\": [\n    \"list_actions\"\n  ]\n}\n```\n\n\n"
    );
}

#[test]
fn first_of_each_goes_by_the_given_texts() {
    let number = |n: u64| JsonValue::Number(JsonNumber::PosInt(n));
    let entries = vec![
        ("a".to_string(), number(1)),
        ("b".to_string(), number(1)),
        ("a".to_string(), number(2)),
        ("".to_string(), number(3)),
        ("b".to_string(), number(4)),
        ("".to_string(), number(5)),
        ("A".to_string(), number(6)),
    ];
    assert_eq!(
        first_of_each(entries),
        vec![number(1), number(1), number(3), number(6)]
    );
    assert_eq!(first_of_each(Vec::new()), Vec::new());
}

#[test]
fn fenced_wraps_a_text() {
    assert_eq!(fenced("{}"), "```json\n{}\n```\n");
    assert_eq!(fenced(""), "```json\n\n```\n");
}
