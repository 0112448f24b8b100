//! The function that gives the contents of a text file. Reading the file
//! is left to the caller: the function says which file to read and renders
//! what the caller read.

use crate::action_read_file::{read_error_text, AlpacaActionReadFile, ReadFileStep};
use crate::function::{arguments_view, error_text, function_error, function_ok, ok_text};
use crate::json::{JsonValue, JsonView};
use vstd::prelude::*;
use vstd::string::StringExecFns;

verus! {

/// How to use the function.
pub const READ_FILE_INFO: &'static str = r#"
# `read_file` usage

This function outputs the contents of the specified text file.

example call:
```json
{
    "action": "invoke_function",
    "function": "read_file",
    "arguments": {
        "file_name": "example.txt"
    }
}
```
"#;

/// What the function returns where something is missing from the call:
/// what is missing, and how to use the function.
pub open spec fn missing_text(what: Seq<char>) -> Seq<char> {
    error_text("read_file"@, what) + READ_FILE_INFO@ + "\n"@
}

/// What the function returns at once for the given arguments, if it asks
/// for no file to be read: that the arguments are missing, or that they
/// name no file.
pub open spec fn refusal_text(arguments: Option<JsonView>) -> Option<Seq<char>> {
    match arguments {
        None => Some(
            missing_text(
                "The 'arguments' field is missing from the request. Please review the usage and try again."@,
            ),
        ),
        Some(args) => match args.text_field("file_name"@) {
            None => Some(
                missing_text(
                    "The 'file_name' field is missing from the request. Please review the usage and try again."@,
                ),
            ),
            Some(_) => None,
        },
    }
}

/// What the function returns once the file was read or could not be read.
pub open spec fn read_result_text(
    file_name: Seq<char>,
    outcome: Result<Seq<char>, Seq<char>>,
) -> Seq<char> {
    match outcome {
        Ok(content) => ok_text("read_file"@, JsonView::String(content)),
        Err(reason) => error_text("read_file"@, read_error_text(file_name, reason)),
    }
}

/// The function `read_file`.
pub struct AlpacaFunctionReadFile;

impl AlpacaFunctionReadFile {
    pub fn new() -> (r: Self) {
        AlpacaFunctionReadFile
    }

    /// Decides what to do with the arguments: to read the file that their
    /// field `file_name` names, or to say at once what is missing.
    pub fn begin(&self, arguments: Option<&JsonValue>) -> (r: ReadFileStep)
        ensures
            match r {
                ReadFileStep::Read { file_name } => arguments matches Some(args)
                    && args@.text_field("file_name"@) == Some(file_name@),
                ReadFileStep::Reply { response } => refusal_text(arguments_view(arguments))
                    == Some(response@),
            },
    {
        match arguments {
            Some(args) => match args.get_str("file_name") {
                Some(file_name) => ReadFileStep::Read { file_name: file_name.to_string() },
                None => {
                    let mut response = function_error(
                        self.name(),
                        "The 'file_name' field is missing from the request. Please review the usage and try again.",
                    );
                    response.append(self.info());
                    response.append("\n");
                    ReadFileStep::Reply { response }
                },
            },
            None => {
                let mut response = function_error(
                    self.name(),
                    "The 'arguments' field is missing from the request. Please review the usage and try again.",
                );
                response.append(self.info());
                response.append("\n");
                ReadFileStep::Reply { response }
            },
        }
    }

    /// The result, given what reading `file_name` gave: the contents of the
    /// file, or the reason why it could not be read.
    pub fn finish(&self, file_name: &str, outcome: Result<String, String>) -> (r: String)
        ensures
            r@ == read_result_text(
                file_name@,
                match outcome {
                    Ok(content) => Ok(content@),
                    Err(reason) => Err(reason@),
                },
            ),
    {
        match outcome {
            Ok(content) => function_ok(self.name(), JsonValue::String(content)),
            Err(reason) => {
                let error = AlpacaActionReadFile::read_error(file_name, reason.as_str());
                function_error(self.name(), error.as_str())
            },
        }
    }

    /// How to use the function.
    pub fn info(&self) -> (r: &'static str)
        ensures
            r@ == READ_FILE_INFO@,
    {
        READ_FILE_INFO
    }

    /// The name of the function.
    pub fn name(&self) -> (r: &'static str)
        ensures
            r@ == "read_file"@,
    {
        "read_file"
    }

    /// What the function does, in a few words.
    pub fn description(&self) -> (r: &'static str)
        ensures
            r@ == "Outputs the contents of the specified text file."@,
    {
        "Outputs the contents of the specified text file."
    }
}

} // verus!
