//! The action that lists the actions there are.

use crate::action::{blockify, block_text, sorted_names, AlpacaActionCatalog, AlpacaActionTrait};
use crate::json::{array_of_texts, object_of, JsonValue, JsonView};
use vstd::prelude::*;
use vstd::string::StringExecFns;

verus! {

/// What the action does and how to ask for it.
pub const DESCRIPTION: &'static str = r#"
The 'list_actions' action responds with a list of all of the available actions.

Here is an example of how to invoke it:
```json
{
    "action": "list_actions"
}
```
"#;

/// What the action answers, given the descriptions of all actions: their
/// names in dictionary order, in a fenced block.
pub open spec fn list_response_text(context: Map<Seq<char>, Seq<char>>) -> Seq<char> {
    "## Success\n\nHere is the list of available actions:\n"@ + block_text(
        object_of("available_actions"@, array_of_texts(sorted_names(context.dom()))),
    ) + "\n"@
}

/// The action `list_actions`.
pub struct AlpacaActionList {}

impl AlpacaActionList {
    pub fn new() -> (r: Self) {
        Self {}
    }
}

impl AlpacaActionTrait for AlpacaActionList {
    open spec fn has_name(&self, name: Seq<char>) -> bool {
        name == "list_actions"@
    }

    open spec fn has_description(&self, description: Seq<char>) -> bool {
        description == DESCRIPTION@
    }

    open spec fn answers(
        &self,
        object: JsonView,
        context: Map<Seq<char>, Seq<char>>,
        response: Seq<char>,
    ) -> bool {
        response == list_response_text(context)
    }

    fn name(&self) -> (r: &str) {
        "list_actions"
    }

    fn description(&self) -> (r: &str) {
        DESCRIPTION
    }

    fn invoke(&self, _object: &JsonValue, context: &AlpacaActionCatalog) -> (r: String) {
        let action_names = context.action_names();
        let object = JsonValue::object_with(
            "available_actions",
            JsonValue::from_strings(&action_names),
        );
        let mut response = "## Success\n\nHere is the list of available actions:\n".to_string();
        response.append(blockify(&object).as_str());
        response.append("\n");
        response
    }
}

} // verus!
