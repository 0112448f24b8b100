//! An engine that lets a language model ask its host for actions.
//!
//! The model writes requests into its answer as fenced blocks of JSON. The
//! engine finds the requests of a message, leaves out repeated ones, asks
//! the registered action that each request names, and renders the responses
//! as one text for the model to read. Beside it stand a lighter protocol of
//! tool calls, a collection of functions that are called by name, and the
//! working directory that a model moves in.
//!
//! What touches the file system is left to the caller: the actions and
//! functions here say what to read and render what was read.

pub mod action;
pub mod action_describe;
pub mod action_laws;
pub mod action_list;
pub mod action_read_directory;
pub mod action_read_file;
pub mod action_regex;
pub mod environment;
pub mod fence;
pub mod function;
pub mod function_dir;
pub mod function_read_file;
pub mod json;
pub mod keyed;
pub mod selection;
pub mod text;
pub mod tool_call;
pub mod tool_dispatch;
pub mod tool_proto;
