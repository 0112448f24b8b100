//! The action that describes one action.

use crate::action::{describe_text, AlpacaActionCatalog, AlpacaActionTrait};
use crate::json::{JsonValue, JsonView};
use vstd::prelude::*;
use vstd::string::StringExecFns;

verus! {

/// What the action does and how to ask for it.
pub const DESCRIPTION: &'static str = r#"
The 'describe_action' action provides a detailed description of the specified action,
including its parameters and usage examples.

Here is an example of how to invoke it:
```json
{
    "action": "describe_action",
    "action_name": "list_actions"
}
```
"#;

/// What the action answers to the request `object`, given the descriptions
/// of all actions: the description of the action that the field
/// `action_name` names, or that no action has that name; where the request
/// names none, that the field is missing.
pub open spec fn describe_response_text(
    object: JsonView,
    context: Map<Seq<char>, Seq<char>>,
) -> Seq<char> {
    match object.text_field("action_name"@) {
        Some(name) => "## Success\n"@ + describe_text(context, name) + "\n"@,
        None => "## Error\n\n"@ + "Request is missing the 'action_name' field."@ + "\n"@
            + DESCRIPTION@ + "\n"@,
    }
}

/// The action `describe_action`.
pub struct AlpacaActionDescribe {}

impl AlpacaActionDescribe {
    pub fn new() -> (r: Self) {
        Self {}
    }
}

impl AlpacaActionTrait for AlpacaActionDescribe {
    open spec fn has_name(&self, name: Seq<char>) -> bool {
        name == "describe_action"@
    }

    open spec fn has_description(&self, description: Seq<char>) -> bool {
        description == DESCRIPTION@
    }

    open spec fn answers(
        &self,
        object: JsonView,
        context: Map<Seq<char>, Seq<char>>,
        response: Seq<char>,
    ) -> bool {
        response == describe_response_text(object, context)
    }

    fn name(&self) -> (r: &str) {
        "describe_action"
    }

    fn description(&self) -> (r: &str) {
        DESCRIPTION
    }

    fn invoke(&self, object: &JsonValue, context: &AlpacaActionCatalog) -> (r: String) {
        match object.get_str("action_name") {
            Some(name) => {
                let mut response = "## Success\n".to_string();
                response.append(context.describe_action(name).as_str());
                response.append("\n");
                response
            },
            None => {
                let mut error_text = "## Error\n\n".to_string();
                error_text.append("Request is missing the 'action_name' field.");
                error_text.append("\n");
                error_text.append(DESCRIPTION);
                error_text.append("\n");
                error_text
            },
        }
    }
}

} // verus!
