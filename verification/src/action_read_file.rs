//! The action that gives the contents of a file. Reading the file is left
//! to the caller: the action says which file to read and renders what the
//! caller read.

use crate::action::{blockify, block_text};
use crate::json::{object_of, JsonValue, JsonView};
use vstd::prelude::*;
use vstd::string::StringExecFns;

verus! {

/// The name of the action.
pub const NAME: &'static str = "read_file";

/// What the action does and how to ask for it.
pub const DESCRIPTION: &'static str = r#"
# `read_file`

The 'read_file' action outputs the contents of the specified file. Only files
in the current directory can be read.  Here is an example of how to invoke it:

```json
{
    "action": "read_file",
    "file_name": "example.txt"
}
```
"#;

/// What says that a request names no file.
pub open spec fn missing_file_name_text() -> Seq<char> {
    "The 'file_name' field is missing from the request. Please review the following description and try again.\n\n"@
        + DESCRIPTION@ + "\n"@
}

/// What says that the file `file_name` could not be read, for the given reason.
pub open spec fn read_error_text(file_name: Seq<char>, reason: Seq<char>) -> Seq<char> {
    "Failed to read file '"@ + file_name + "': "@ + reason
        + ".\nPlease ensure the file name is correct and try again."@
}

/// What the action answers once the file was read or could not be read.
pub open spec fn read_response_text(
    file_name: Seq<char>,
    outcome: Result<Seq<char>, Seq<char>>,
) -> Seq<char> {
    match outcome {
        Ok(content) => block_text(object_of("content"@, JsonView::String(content))),
        Err(reason) => block_text(
            object_of("error"@, JsonView::String(read_error_text(file_name, reason))),
        ),
    }
}

/// What the action does with a request: it asks for a file to be read, or
/// it answers at once.
pub enum ReadFileStep {
    Read { file_name: String },
    Reply { response: String },
}

/// The action `read_file`.
pub struct AlpacaActionReadFile {}

impl AlpacaActionReadFile {
    pub fn new() -> (r: Self) {
        Self {}
    }

    /// The name of the action.
    pub fn name(&self) -> (r: &str)
        ensures
            r@ == NAME@,
    {
        NAME
    }

    /// What the action does and how to ask for it.
    pub fn description(&self) -> (r: &str)
        ensures
            r@ == DESCRIPTION@,
    {
        DESCRIPTION
    }

    /// Decides what to do with the request `object`: to read the file that
    /// its field `file_name` names, or, where it names none, to answer that
    /// the field is missing.
    pub fn begin(&self, object: &JsonValue) -> (r: ReadFileStep)
        ensures
            match r {
                ReadFileStep::Read { file_name } => object@.text_field("file_name"@) == Some(
                    file_name@,
                ),
                ReadFileStep::Reply { response } => object@.text_field("file_name"@) is None
                    && response@ == block_text(
                    object_of("error"@, JsonView::String(missing_file_name_text())),
                ),
            },
    {
        match object.get_str("file_name") {
            Some(file_name) => ReadFileStep::Read { file_name: file_name.to_string() },
            None => {
                let mut message =
                    "The 'file_name' field is missing from the request. Please review the following description and try again.\n\n".to_string();
                message.append(DESCRIPTION);
                message.append("\n");
                let error = JsonValue::object_with("error", JsonValue::String(message));
                ReadFileStep::Reply { response: blockify(&error) }
            },
        }
    }

    /// The text that says that `file_name` could not be read, for the given
    /// reason.
    pub fn read_error(file_name: &str, reason: &str) -> (r: String)
        ensures
            r@ == read_error_text(file_name@, reason@),
    {
        let mut error = "Failed to read file '".to_string();
        error.append(file_name);
        error.append("': ");
        error.append(reason);
        error.append(".\nPlease ensure the file name is correct and try again.");
        error
    }

    /// The answer, given what reading `file_name` gave: the contents of the
    /// file, or the reason why it could not be read.
    pub fn finish(&self, file_name: &str, outcome: Result<String, String>) -> (r: String)
        ensures
            r@ == read_response_text(
                file_name@,
                match outcome {
                    Ok(content) => Ok(content@),
                    Err(reason) => Err(reason@),
                },
            ),
    {
        match outcome {
            Ok(content) => {
                let response = JsonValue::object_with("content", JsonValue::String(content));
                blockify(&response)
            },
            Err(reason) => {
                let error = Self::read_error(file_name, reason.as_str());
                let output = JsonValue::object_with("error", JsonValue::String(error));
                blockify(&output)
            },
        }
    }
}

} // verus!
