//! A tool call: the name of a function and the arguments to call it with.

use crate::json::{json_parse, json_pretty, JsonValue, JsonView};
use vstd::prelude::*;

verus! {

/// A tool call, held as the JSON value it is written as: an object whose
/// field `function` names the function and whose field `arguments` is an
/// object of arguments.
pub struct AlpacaToolCall {
    object: JsonValue,
}

/// The arguments that a tool call written as `call` holds: the fields of
/// its field `arguments`.
pub open spec fn arguments_of(call: JsonView) -> Map<Seq<char>, JsonView> {
    match call.field("arguments"@) {
        Some(arguments) => arguments.fields(),
        None => Map::empty(),
    }
}

/// Whether an argument can be added to a tool call written as `call`: the
/// call is an object or still empty, and so is what it holds as `arguments`.
pub open spec fn accepts_arguments(call: JsonView) -> bool {
    &&& call is Null || call is Object
    &&& match call.field("arguments"@) {
        Some(arguments) => arguments is Null || arguments is Object,
        None => true,
    }
}

impl AlpacaToolCall {
    /// The JSON value that the tool call is written as.
    pub closed spec fn view(self) -> JsonView {
        self.object@
    }

    /// An empty tool call: the null value.
    pub fn new() -> (r: AlpacaToolCall)
        ensures
            r@ == JsonView::Null,
            accepts_arguments(r@),
    {
        AlpacaToolCall { object: JsonValue::Null }
    }

    /// Reads a tool call from JSON text; fails where the text is no JSON
    /// document.
    pub fn from_str(json: &str) -> (r: Result<AlpacaToolCall, ()>)
        ensures
            match r {
                Ok(call) => json_parse(json@) == Some(call@),
                Err(_) => json_parse(json@) is None,
            },
    {
        match JsonValue::parse(json) {
            Some(object) => Ok(AlpacaToolCall { object }),
            None => Err(()),
        }
    }

    /// The JSON value that the tool call is written as.
    pub fn value(&self) -> (r: &JsonValue)
        ensures
            r@ == self@,
    {
        &self.object
    }

    /// The arguments, where the call has the field.
    pub fn arguments(&self) -> (r: Option<&JsonValue>)
        ensures
            match r {
                Some(v) => self@.field("arguments"@) == Some(v@),
                None => self@.field("arguments"@) is None,
            },
    {
        self.object.get("arguments")
    }

    /// The tool call as indented JSON text.
    pub fn to_string_pretty(&self) -> (r: String)
        ensures
            r@ == json_pretty(self@),
    {
        self.object.to_string_pretty()
    }

    /// The name of the function, where the call holds one as a string.
    pub fn function(&self) -> (r: Option<&str>)
        ensures
            match r {
                Some(name) => self@.text_field("function"@) == Some(name@),
                None => self@.text_field("function"@) is None,
            },
    {
        self.object.get_str("function")
    }

    /// Sets the name of the function.
    pub fn set_function(&mut self, function: &str) -> (r: &mut Self)
        requires
            old(self)@ is Null || old(self)@ is Object,
        ensures
            r@ == JsonView::Object(
                old(self)@.fields().insert("function"@, JsonView::String(function@)),
            ),
            r@.text_field("function"@) == Some(function@),
            arguments_of(r@) == arguments_of(old(self)@),
            accepts_arguments(old(self)@) ==> accepts_arguments(r@),
            *final(self) == *final(r),
    {
        proof {
            reveal_strlit("function");
            reveal_strlit("arguments");
            assert("function"@ != "arguments"@) by {
                assert("function"@.len() != "arguments"@.len());
            }
        }
        self.object.set("function", JsonValue::String(function.to_string()));
        self
    }

    /// The value of the argument `arg`, where the call holds it.
    pub fn argument(&self, arg: &str) -> (r: Option<&JsonValue>)
        ensures
            match r {
                Some(v) => arguments_of(self@).contains_key(arg@) && arguments_of(self@)[arg@]
                    == v@,
                None => !arguments_of(self@).contains_key(arg@),
            },
    {
        match self.object.get("arguments") {
            Some(arguments) => arguments.get(arg),
            None => None,
        }
    }

    /// Sets the argument `key` to `value`, whether or not the call held it.
    pub fn add_argument(&mut self, key: &str, value: JsonValue) -> (r: &mut Self)
        requires
            accepts_arguments(old(self)@),
        ensures
            r@ == JsonView::Object(
                old(self)@.fields().insert(
                    "arguments"@,
                    JsonView::Object(arguments_of(old(self)@).insert(key@, value@)),
                ),
            ),
            arguments_of(r@) == arguments_of(old(self)@).insert(key@, value@),
            r@.text_field("function"@) == old(self)@.text_field("function"@),
            accepts_arguments(r@),
            *final(self) == *final(r),
    {
        proof {
            reveal_strlit("function");
            reveal_strlit("arguments");
            assert("function"@ != "arguments"@) by {
                assert("function"@.len() != "arguments"@.len());
            }
        }
        let ghost before = self.object@;
        let mut arguments = self.object.take("arguments");
        arguments.set(key, value);
        proof {
            assert(before.fields().remove("arguments"@).insert("arguments"@, arguments@)
                =~= before.fields().insert("arguments"@, arguments@));
        }
        self.object.set("arguments", arguments);
        self
    }
}

} // verus!
