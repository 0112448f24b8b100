//! The working directory that a model moves in, and the requests that read
//! or change it. Looking at the file system is left to the caller: the
//! environment says what to look at and renders what the caller found.

use crate::json::{array_of_texts, object_of, object_of_two, JsonObject, JsonValue, JsonView};
use crate::text::{sort_strings, sorted_texts, texts};
use vstd::prelude::*;
use vstd::string::StringExecFns;

verus! {

/// The answer that only says what went wrong.
pub open spec fn error_value(message: Seq<char>) -> JsonView {
    object_of("error"@, JsonView::String(message))
}

/// The answer that gives the current directory.
pub open spec fn current_directory_value(current_dir: Seq<char>) -> JsonView {
    object_of_two(
        "function"@,
        JsonView::String("get_current_directory"@),
        "ok"@,
        object_of("current_dir"@, JsonView::String(current_dir)),
    )
}

/// The answer to a change of directory that failed.
pub open spec fn change_error_value(message: Seq<char>) -> JsonView {
    object_of_two(
        "function"@,
        JsonView::String("change_directory"@),
        "error"@,
        JsonView::String(message),
    )
}

/// The answer to a change of directory that was made.
pub open spec fn change_ok_value(current_dir: Seq<char>) -> JsonView {
    object_of_two(
        "function"@,
        JsonView::String("change_directory"@),
        "ok"@,
        object_of("current_dir"@, JsonView::String(current_dir)),
    )
}

/// The answer that lists the current directory: its files and its
/// directories, both in dictionary order.
pub open spec fn list_directory_value(
    current_dir: Seq<char>,
    files: Seq<Seq<char>>,
    directories: Seq<Seq<char>>,
) -> JsonView {
    object_of_two(
        "function"@,
        JsonView::String("list_directory"@),
        "ok"@,
        JsonView::Object(
            Map::<Seq<char>, JsonView>::empty().insert(
                "current_dir"@,
                JsonView::String(current_dir),
            ).insert("files"@, array_of_texts(sorted_texts(files))).insert(
                "directories"@,
                array_of_texts(sorted_texts(directories)),
            ),
        ),
    )
}

/// What the environment does with a request: it answers at once, or it
/// asks the caller to look at the file system first.
pub enum EnvironmentStep {
    /// The answer.
    Reply { response: JsonValue },
    /// Read the current directory and hand what it holds to
    /// `finish_list_directory`.
    ListDirectory,
    /// Look at `subdir_name` below the current directory and hand what is
    /// there to `finish_change_directory`.
    ChangeDirectory { subdir_name: String },
}

/// The model of a step.
pub enum EnvironmentStepView {
    Reply { response: JsonView },
    ListDirectory,
    ChangeDirectory { subdir_name: Seq<char> },
}

impl EnvironmentStep {
    /// The model of the step.
    pub open spec fn view(self) -> EnvironmentStepView {
        match self {
            EnvironmentStep::Reply { response } => EnvironmentStepView::Reply {
                response: response@,
            },
            EnvironmentStep::ListDirectory => EnvironmentStepView::ListDirectory,
            EnvironmentStep::ChangeDirectory { subdir_name } => EnvironmentStepView::ChangeDirectory {
                subdir_name: subdir_name@,
            },
        }
    }
}

/// What the caller found where a directory was asked for.
pub enum DirectoryProbe {
    /// Nothing is there.
    Missing,
    /// What is there is no directory.
    NotADirectory,
    /// The directory is there, but its path could not be resolved.
    Unresolved { reason: String },
    /// The directory is there, under the given resolved path.
    Resolved { path: String },
}

/// The step that a change of directory with the given arguments takes.
pub open spec fn change_directory_step(arguments: JsonView) -> EnvironmentStepView {
    match arguments.field("subdir_name"@) {
        None => EnvironmentStepView::Reply {
            response: change_error_value("Missing required argument 'subdir_name'."@),
        },
        Some(name) => EnvironmentStepView::ChangeDirectory {
            subdir_name: match name.text() {
                Some(text) => text,
                None => Seq::empty(),
            },
        },
    }
}

/// The arguments of a request: its field `arguments`; where it has none, no
/// arguments.
pub open spec fn arguments_of(request: JsonView) -> JsonView {
    match request.field("arguments"@) {
        Some(arguments) => arguments,
        None => JsonView::Object(Map::empty()),
    }
}

/// The step that the request takes in the directory `current_dir`.
pub open spec fn invocation_step(current_dir: Seq<char>, request: JsonView) -> EnvironmentStepView {
    match request.text_field("function"@) {
        None => EnvironmentStepView::Reply {
            response: error_value("Missing required field 'function' in request."@),
        },
        Some(name) => if name == "get_current_directory"@ {
            EnvironmentStepView::Reply { response: current_directory_value(current_dir) }
        } else if name == "list_directory"@ {
            EnvironmentStepView::ListDirectory
        } else if name == "change_directory"@ {
            change_directory_step(arguments_of(request))
        } else {
            EnvironmentStepView::Reply {
                response: error_value("Unsupported function: '"@ + name + "'."@),
            }
        },
    }
}

/// The answer that ends a change of directory, given what the caller found
/// at `subdir_name`.
pub open spec fn change_directory_outcome(subdir_name: Seq<char>, probe: DirectoryProbe) -> Result<
    JsonView,
    JsonView,
> {
    match probe {
        DirectoryProbe::Missing => Err(
            change_error_value("Subdirectory '"@ + subdir_name + "' does not exist."@),
        ),
        DirectoryProbe::NotADirectory => Err(
            change_error_value("'"@ + subdir_name + "' is not a directory."@),
        ),
        DirectoryProbe::Unresolved { reason } => Err(
            change_error_value("Failed to resolve path: '"@ + reason@ + "'."@),
        ),
        DirectoryProbe::Resolved { path } => Ok(change_ok_value(path@)),
    }
}

/// The current directory after a change of directory that began in
/// `current_dir`, given what the caller found.
pub open spec fn directory_after(current_dir: Seq<char>, probe: DirectoryProbe) -> Seq<char> {
    match probe {
        DirectoryProbe::Resolved { path } => path@,
        _ => current_dir,
    }
}

/// The working directory of a model.
pub struct AlpacaEnvironment {
    current_dir: String,
}

impl AlpacaEnvironment {
    /// The path of the current directory.
    pub closed spec fn view(self) -> Seq<char> {
        self.current_dir@
    }

    /// The environment whose current directory is `current_dir`.
    pub fn new(current_dir: String) -> (r: Self)
        ensures
            r@ == current_dir@,
    {
        AlpacaEnvironment { current_dir }
    }

    /// The path of the current directory.
    pub fn current_dir(&self) -> (r: &str)
        ensures
            r@ == self@,
    {
        self.current_dir.as_str()
    }

    /// Decides what to do with a request: the object names a function in
    /// its field `function` and may hold arguments in its field `arguments`.
    pub fn process_invocation(&self, request: &JsonValue) -> (r: EnvironmentStep)
        ensures
            r@ == invocation_step(self@, request@),
    {
        let function_name = match request.get_str("function") {
            Some(name) => name,
            None => {
                return EnvironmentStep::Reply {
                    response: JsonValue::object_with(
                        "error",
                        JsonValue::String(
                            "Missing required field 'function' in request.".to_string(),
                        ),
                    ),
                };
            },
        };
        if function_name.eq("get_current_directory") {
            EnvironmentStep::Reply { response: self.invoke_get_current_directory() }
        } else if function_name.eq("list_directory") {
            EnvironmentStep::ListDirectory
        } else if function_name.eq("change_directory") {
            match request.get("arguments") {
                Some(arguments) => self.invoke_change_directory(arguments),
                None => {
                    let empty_args = JsonValue::Object(JsonObject::new());
                    self.invoke_change_directory(&empty_args)
                },
            }
        } else {
            let mut message = "Unsupported function: '".to_string();
            message.append(function_name);
            message.append("'.");
            EnvironmentStep::Reply {
                response: JsonValue::object_with("error", JsonValue::String(message)),
            }
        }
    }

    /// Decides what to do with a change of directory: to look at the
    /// directory that the argument `subdir_name` names, or, where the
    /// argument is missing, to answer so. An argument that is no string
    /// names the current directory itself.
    pub fn invoke_change_directory(&self, arguments: &JsonValue) -> (r: EnvironmentStep)
        ensures
            r@ == change_directory_step(arguments@),
    {
        match arguments.get("subdir_name") {
            None => EnvironmentStep::Reply {
                response: JsonValue::object_with_two(
                    "function",
                    JsonValue::String("change_directory".to_string()),
                    "error",
                    JsonValue::String("Missing required argument 'subdir_name'.".to_string()),
                ),
            },
            Some(name) => match name.as_str() {
                Some(text) => EnvironmentStep::ChangeDirectory { subdir_name: text.to_string() },
                None => EnvironmentStep::ChangeDirectory { subdir_name: String::new() },
            },
        }
    }

    /// Ends a change of directory, given what the caller found at
    /// `subdir_name` below the current directory. Where the directory was
    /// found, its resolved path becomes the current directory; else the
    /// current directory stays and the answer says what went wrong.
    pub fn finish_change_directory(&mut self, subdir_name: &str, probe: DirectoryProbe) -> (r:
        Result<JsonValue, JsonValue>)
        ensures
            final(self)@ == directory_after(old(self)@, probe),
            match r {
                Ok(output) => change_directory_outcome(subdir_name@, probe) == Ok::<
                    JsonView,
                    JsonView,
                >(output@),
                Err(output) => change_directory_outcome(subdir_name@, probe) == Err::<
                    JsonView,
                    JsonView,
                >(output@),
            },
    {
        let mut message = String::new();
        match probe {
            DirectoryProbe::Resolved { path } => {
                let output = JsonValue::object_with_two(
                    "function",
                    JsonValue::String("change_directory".to_string()),
                    "ok",
                    JsonValue::object_with("current_dir", JsonValue::String(path.clone())),
                );
                self.current_dir = path;
                return Ok(output);
            },
            DirectoryProbe::Missing => {
                message.append("Subdirectory '");
                message.append(subdir_name);
                message.append("' does not exist.");
            },
            DirectoryProbe::NotADirectory => {
                message.append("'");
                message.append(subdir_name);
                message.append("' is not a directory.");
            },
            DirectoryProbe::Unresolved { reason } => {
                message.append("Failed to resolve path: '");
                message.append(reason.as_str());
                message.append("'.");
            },
        }
        Err(
            JsonValue::object_with_two(
                "function",
                JsonValue::String("change_directory".to_string()),
                "error",
                JsonValue::String(message),
            ),
        )
    }

    /// The answer that gives the current directory.
    pub fn invoke_get_current_directory(&self) -> (r: JsonValue)
        ensures
            r@ == current_directory_value(self@),
    {
        JsonValue::object_with_two(
            "function",
            JsonValue::String("get_current_directory".to_string()),
            "ok",
            JsonValue::object_with("current_dir", JsonValue::String(self.current_dir.clone())),
        )
    }

    /// Makes `path` the current directory.
    pub fn set_current_dir(&mut self, path: String)
        ensures
            final(self)@ == path@,
    {
        self.current_dir = path;
    }

    /// The answer that lists the current directory, given the names of the
    /// files and of the directories that it holds, in any order.
    pub fn finish_list_directory(&self, files: Vec<String>, directories: Vec<String>) -> (r:
        JsonValue)
        ensures
            r@ == list_directory_value(self@, texts(files@), texts(directories@)),
    {
        let files = sort_strings(files);
        let directories = sort_strings(directories);
        let mut ok = JsonObject::new();
        ok.insert("current_dir".to_string(), JsonValue::String(self.current_dir.clone()));
        ok.insert("files".to_string(), JsonValue::from_strings(&files));
        ok.insert("directories".to_string(), JsonValue::from_strings(&directories));
        JsonValue::object_with_two(
            "function",
            JsonValue::String("list_directory".to_string()),
            "ok",
            JsonValue::Object(ok),
        )
    }
}

} // verus!
