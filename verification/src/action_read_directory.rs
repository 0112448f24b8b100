//! The action that lists the current directory. Reading the directory is
//! left to the caller: the action says whether to read it and renders what
//! the caller found.

use crate::action::{blockify, block_text, format_response, status_text};
use crate::json::{array_of_texts, object_of_two, JsonValue, JsonView};
use crate::text::{sort_strings, sorted_texts, texts};
use vstd::prelude::*;
use vstd::string::StringExecFns;

verus! {

/// The name of the action.
pub const NAME: &'static str = "read_directory";

/// What the action does and how to ask for it.
pub const DESCRIPTION: &'static str = r#"
The 'read_directory' action provides the names of the files and subdirectories
in the current working directory.

Here is an example of how to invoke it:
```json
{
    "action": "read_directory",
}
```
"#;

/// How to ask for the action.
pub const EXAMPLE_USAGE: &'static str = r#"
Here is an example of how to invoke it:

```json
{
    "action": "read_directory",
}
```
"#;

/// Whether a request holds more than the name of the action: it is an
/// object with more than one field.
pub open spec fn has_arguments(object: JsonView) -> bool {
    object is Object && object.fields().dom().len() > 1
}

/// What is answered to a request that holds arguments.
pub open spec fn incorrect_arguments_text() -> Seq<char> {
    status_text("Error"@, "The action was invoked with incorrect arguments."@) + EXAMPLE_USAGE@
}

/// What is answered where the directory holds the given files and
/// directories: both lists in dictionary order, in a fenced block.
pub open spec fn listing_text(files: Seq<Seq<char>>, directories: Seq<Seq<char>>) -> Seq<char> {
    status_text(
        "Success"@,
        "Here are the files and directories in the current directory:\n"@ + block_text(
            object_of_two(
                "files"@,
                array_of_texts(sorted_texts(files)),
                "directories"@,
                array_of_texts(sorted_texts(directories)),
            ),
        ),
    )
}

/// What the action does with a request: it asks for the directory to be
/// read, or it answers at once.
pub enum ReadDirectoryStep {
    List,
    Reply { response: String },
}

/// The action `read_directory`.
pub struct AlpacaActionReadDirectory {}

impl AlpacaActionReadDirectory {
    pub fn new() -> (r: Self) {
        Self {}
    }

    /// The name of the action.
    pub fn name(&self) -> (r: &str)
        ensures
            r@ == NAME@,
    {
        NAME
    }

    /// What the action does and how to ask for it.
    pub fn description(&self) -> (r: &str)
        ensures
            r@ == DESCRIPTION@,
    {
        DESCRIPTION
    }

    /// Decides what to do with the request `object`: to answer that the
    /// arguments are incorrect, where it holds any, else to read the
    /// directory.
    pub fn begin(&self, object: &JsonValue) -> (r: ReadDirectoryStep)
        ensures
            match r {
                ReadDirectoryStep::Reply { response } => has_arguments(object@) && response@
                    == incorrect_arguments_text(),
                ReadDirectoryStep::List => !has_arguments(object@),
            },
    {
        match object.as_object() {
            Some(fields) => {
                if fields.len() > 1 {
                    let mut response = format_response(
                        "Error",
                        "The action was invoked with incorrect arguments.",
                    );
                    response.append(EXAMPLE_USAGE);
                    return ReadDirectoryStep::Reply { response };
                }
            },
            None => {},
        }
        ReadDirectoryStep::List
    }

    /// The answer, given the names of the files and of the directories that
    /// the directory holds, in any order.
    pub fn finish(&self, files: Vec<String>, directories: Vec<String>) -> (r: String)
        ensures
            r@ == listing_text(texts(files@), texts(directories@)),
    {
        let files = sort_strings(files);
        let directories = sort_strings(directories);
        let ok = JsonValue::object_with_two(
            "files",
            JsonValue::from_strings(&files),
            "directories",
            JsonValue::from_strings(&directories),
        );
        let directory_block = blockify(&ok);
        let mut response =
            "Here are the files and directories in the current directory:\n".to_string();
        response.append(directory_block.as_str());
        format_response("Success", response.as_str())
    }
}

} // verus!
