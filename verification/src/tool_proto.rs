//! The description of a tool as a model is told about it: the name of its
//! function, what it does, and the types of its parameters.

use crate::json::{json_parse, json_pretty, JsonObject, JsonValue, JsonView};
use vstd::prelude::*;

verus! {

/// The types that a parameter of a tool can have.
pub enum AlpacaToolParameterType {
    String,
    Integer,
    Float,
    Boolean,
    Object,
    Array,
}

impl AlpacaToolParameterType {
    /// The name of the type, as a tool description spells it.
    pub open spec fn name(self) -> Seq<char> {
        match self {
            AlpacaToolParameterType::String => "string"@,
            AlpacaToolParameterType::Integer => "integer"@,
            AlpacaToolParameterType::Float => "float"@,
            AlpacaToolParameterType::Boolean => "boolean"@,
            AlpacaToolParameterType::Object => "object"@,
            AlpacaToolParameterType::Array => "array"@,
        }
    }

    /// The name of the type.
    pub fn to_string(&self) -> (r: String)
        ensures
            r@ == self.name(),
    {
        match self {
            AlpacaToolParameterType::String => "string".to_string(),
            AlpacaToolParameterType::Integer => "integer".to_string(),
            AlpacaToolParameterType::Float => "float".to_string(),
            AlpacaToolParameterType::Boolean => "boolean".to_string(),
            AlpacaToolParameterType::Object => "object".to_string(),
            AlpacaToolParameterType::Array => "array".to_string(),
        }
    }
}

/// The parameters that a tool description written as `tool` holds: the
/// fields of its field `parameters`, where that is an object.
pub open spec fn parameters_of(tool: JsonView) -> Map<Seq<char>, JsonView> {
    match tool.field("parameters"@) {
        Some(JsonView::Object(parameters)) => parameters,
        _ => Map::empty(),
    }
}

/// A tool description, held as the JSON value it is written as.
pub struct AlpacaToolProto {
    object: JsonValue,
}

impl AlpacaToolProto {
    /// The JSON value that the description is written as.
    pub closed spec fn view(self) -> JsonView {
        self.object@
    }

    /// An empty description: the null value.
    pub fn new() -> (r: AlpacaToolProto)
        ensures
            r@ == JsonView::Null,
    {
        AlpacaToolProto { object: JsonValue::Null }
    }

    /// Reads a description from JSON text; fails where the text is no JSON
    /// document.
    pub fn from_string(json: &str) -> (r: Result<AlpacaToolProto, ()>)
        ensures
            match r {
                Ok(tool) => json_parse(json@) == Some(tool@),
                Err(_) => json_parse(json@) is None,
            },
    {
        match JsonValue::parse(json) {
            Some(object) => Ok(AlpacaToolProto { object }),
            None => Err(()),
        }
    }

    /// The JSON value that the description is written as.
    pub fn value(&self) -> (r: &JsonValue)
        ensures
            r@ == self@,
    {
        &self.object
    }

    /// The description as indented JSON text.
    pub fn to_string_pretty(&self) -> (r: String)
        ensures
            r@ == json_pretty(self@),
    {
        self.object.to_string_pretty()
    }

    /// What the tool does, where the description says so in a string.
    pub fn description(&self) -> (r: Option<&str>)
        ensures
            match r {
                Some(text) => self@.text_field("description"@) == Some(text@),
                None => self@.text_field("description"@) is None,
            },
    {
        self.object.get_str("description")
    }

    /// Sets what the tool does.
    pub fn set_description(&mut self, function: &str)
        requires
            old(self)@ is Null || old(self)@ is Object,
        ensures
            final(self)@ == JsonView::Object(
                old(self)@.fields().insert("description"@, JsonView::String(function@)),
            ),
    {
        self.object.set("description", JsonValue::String(function.to_string()));
    }

    /// The name of the function, where the description holds one as a string.
    pub fn function(&self) -> (r: Option<&str>)
        ensures
            match r {
                Some(name) => self@.text_field("function"@) == Some(name@),
                None => self@.text_field("function"@) is None,
            },
    {
        self.object.get_str("function")
    }

    /// Sets the name of the function.
    pub fn set_function(&mut self, function: &str)
        requires
            old(self)@ is Null || old(self)@ is Object,
        ensures
            final(self)@ == JsonView::Object(
                old(self)@.fields().insert("function"@, JsonView::String(function@)),
            ),
    {
        self.object.set("function", JsonValue::String(function.to_string()));
    }

    /// Gives the parameter `param_name` the type `param_type`. Where the
    /// description held no object of parameters, it gets one first.
    pub fn add_parameter(&mut self, param_name: &str, param_type: AlpacaToolParameterType)
        requires
            old(self)@ is Null || old(self)@ is Object,
        ensures
            final(self)@ == JsonView::Object(
                old(self)@.fields().insert(
                    "parameters"@,
                    JsonView::Object(
                        parameters_of(old(self)@).insert(
                            param_name@,
                            JsonView::String(param_type.name()),
                        ),
                    ),
                ),
            ),
    {
        let ghost before = self.object@;
        let held = self.object.take("parameters");
        let mut parameters = match held {
            JsonValue::Object(o) => JsonValue::Object(o),
            _ => JsonValue::Object(JsonObject::new()),
        };
        parameters.set(param_name, JsonValue::String(param_type.to_string()));
        proof {
            assert(before.fields().remove("parameters"@).insert("parameters"@, parameters@)
                =~= before.fields().insert("parameters"@, parameters@));
        }
        self.object.set("parameters", parameters);
    }

    /// The parameters, where the description has the field.
    pub fn parameters(&self) -> (r: Option<&JsonValue>)
        ensures
            match r {
                Some(v) => self@.field("parameters"@) == Some(v@),
                None => self@.field("parameters"@) is None,
            },
    {
        self.object.get("parameters")
    }
}

} // verus!
