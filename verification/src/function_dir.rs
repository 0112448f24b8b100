//! The function that lists the current directory. Reading the directory is
//! left to the caller: the function renders what the caller found.

use crate::function::{function_ok, ok_text};
use crate::json::{array_of_texts, object_of_two, JsonValue};
use crate::text::{sort_strings, sorted_texts, texts};
use vstd::prelude::*;

verus! {

/// How to use the function.
pub const FUNCTION_DIR_INFO: &'static str = r#"
# `dir`

This function lists the files & directories in the current directory.

example call:
```json
{
    "action": "invoke_function",
    "function": "dir",
    "arguments": {}
}
```

example response:
```json
{
    "function": "dir",
    "output": {
        "files": [
            "file1.txt",
            "file2.txt"
        ],
        "directories": [
            "dir1",
            "dir2"
        ]
    }
}
"#;

/// What the function returns where the directory holds the given files and
/// directories: both lists in dictionary order.
pub open spec fn dir_text(files: Seq<Seq<char>>, directories: Seq<Seq<char>>) -> Seq<char> {
    ok_text(
        "dir"@,
        object_of_two(
            "files"@,
            array_of_texts(sorted_texts(files)),
            "directories"@,
            array_of_texts(sorted_texts(directories)),
        ),
    )
}

/// The function `dir`.
pub struct AlpacaFunctionDir;

impl AlpacaFunctionDir {
    pub fn new() -> (r: Self) {
        AlpacaFunctionDir
    }

    /// The result, given the names of the files and of the directories that
    /// the directory holds, in any order.
    pub fn finish(&self, files: Vec<String>, directories: Vec<String>) -> (r: String)
        ensures
            r@ == dir_text(texts(files@), texts(directories@)),
    {
        let files = sort_strings(files);
        let directories = sort_strings(directories);
        let ok = JsonValue::object_with_two(
            "files",
            JsonValue::from_strings(&files),
            "directories",
            JsonValue::from_strings(&directories),
        );
        function_ok(self.name(), ok)
    }

    /// How to use the function.
    pub fn info(&self) -> (r: &'static str)
        ensures
            r@ == FUNCTION_DIR_INFO@,
    {
        FUNCTION_DIR_INFO
    }

    /// The name of the function.
    pub fn name(&self) -> (r: &'static str)
        ensures
            r@ == "dir"@,
    {
        "dir"
    }

    /// What the function does, in a few words.
    pub fn description(&self) -> (r: &'static str)
        ensures
            r@ == "Lists the files & directories in the current directory."@,
    {
        "Lists the files & directories in the current directory."
    }
}

} // verus!
