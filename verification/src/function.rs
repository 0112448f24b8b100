//! Functions that a model may call by name, and the collection that holds
//! them.

use crate::action::{blockify, block_text};
use crate::json::{object_of_two, values_view, JsonValue, JsonView};
use crate::keyed::{distinct_keys, has_key, index_of_key, lemma_pairs_lookup, position_of};
use vstd::prelude::*;
use vstd::string::StringExecFns;

verus! {

/// What a model is told about functions before it uses them.
pub const FUNCTIONS_INTRO: &'static str = r#"
You have access to 'functions' that will give you access to external data.
This allows you to obtain more information about a topic to assist your user.
If you feel you need more information, or are wanting to double-check that
your answer is accurate, using these 'functions' is a good idea.

To see a list of the 'functions' available to you, use the following function call:
```json
{
    "action": "invoke_function",
    "function": "list_functions"
} 
```
"#;

/// The model of arguments that may be missing.
pub open spec fn arguments_view(arguments: Option<&JsonValue>) -> Option<JsonView> {
    match arguments {
        Some(a) => Some(a@),
        None => None,
    }
}

/// The text of a result that may be missing.
pub open spec fn result_view(result: Option<String>) -> Option<Seq<char>> {
    match result {
        Some(s) => Some(s@),
        None => None,
    }
}

/// What a function has to offer.
///
/// The four predicates say what the four methods may return. As they stand
/// they allow anything; a function that is verified says more.
pub trait AlpacaFunction {
    /// Whether `execute` may return `result` for `arguments`.
    open spec fn executes(&self, arguments: Option<JsonView>, result: Option<Seq<char>>) -> bool {
        true
    }

    /// Whether `info()` may return `info`.
    open spec fn has_info(&self, info: Seq<char>) -> bool {
        true
    }

    /// Whether `name()` may return `name`.
    open spec fn has_name(&self, name: Seq<char>) -> bool {
        true
    }

    /// Whether `description()` may return `description`.
    open spec fn has_description(&self, description: Seq<char>) -> bool {
        true
    }

    /// Runs the function; nothing where the arguments do not fit it.
    fn execute(&self, arguments: Option<&JsonValue>) -> (r: Option<String>)
        ensures
            self.executes(arguments_view(arguments), result_view(r)),
    ;

    /// How to use the function.
    fn info(&self) -> (r: &'static str)
        ensures
            self.has_info(r@),
    ;

    /// The name of the function.
    fn name(&self) -> (r: &'static str)
        ensures
            self.has_name(r@),
    ;

    /// What the function does, in a few words.
    fn description(&self) -> (r: &'static str)
        ensures
            self.has_description(r@),
    ;
}

impl<T: AlpacaFunction + ?Sized> AlpacaFunction for Box<T> {
    open spec fn executes(&self, arguments: Option<JsonView>, result: Option<Seq<char>>) -> bool {
        (**self).executes(arguments, result)
    }

    open spec fn has_info(&self, info: Seq<char>) -> bool {
        (**self).has_info(info)
    }

    open spec fn has_name(&self, name: Seq<char>) -> bool {
        (**self).has_name(name)
    }

    open spec fn has_description(&self, description: Seq<char>) -> bool {
        (**self).has_description(description)
    }

    fn execute(&self, arguments: Option<&JsonValue>) -> (r: Option<String>) {
        (**self).execute(arguments)
    }

    fn info(&self) -> (r: &'static str) {
        (**self).info()
    }

    fn name(&self) -> (r: &'static str) {
        (**self).name()
    }

    fn description(&self) -> (r: &'static str) {
        (**self).description()
    }
}

/// The entry of the list of functions for one function.
pub open spec fn listing_entry(entry: (Seq<char>, Seq<char>)) -> JsonView {
    object_of_two(
        "function"@,
        JsonView::String(entry.0),
        "description"@,
        JsonView::String(entry.1),
    )
}

/// The text that lists the functions with the given names and descriptions.
pub open spec fn list_functions_text(listing: Seq<(Seq<char>, Seq<char>)>) -> Seq<char> {
    block_text(
        object_of_two(
            "function"@,
            JsonView::String("list_functions"@),
            "output"@,
            JsonView::Array(listing.map_values(|e: (Seq<char>, Seq<char>)| listing_entry(e))),
        ),
    )
}

/// The text that says that a function was used in a wrong way.
pub open spec fn usage_error_text(name: Seq<char>, info: Seq<char>) -> Seq<char> {
    "Error: Incorrect usage of function '"@ + name + "'. See usage below info below:\n"@ + info
}

/// What is answered to a call of a function that is not there: the list of
/// functions, and before it, unless the list itself was asked for, that the
/// function was not found.
pub open spec fn unknown_function_text(
    function_name: Seq<char>,
    listing: Seq<(Seq<char>, Seq<char>)>,
) -> Seq<char> {
    if function_name != "list_functions"@ {
        "Function '"@ + function_name + "' not found. Available functions are:\n"@
            + list_functions_text(listing)
    } else {
        list_functions_text(listing)
    }
}

/// The result of a function, as it is handed back: the name of the function
/// and its output.
pub open spec fn ok_text(function: Seq<char>, output: JsonView) -> Seq<char> {
    block_text(object_of_two("function"@, JsonView::String(function), "output"@, output))
}

/// The failure of a function, as it is handed back: the name of the
/// function and what went wrong.
pub open spec fn error_text(function: Seq<char>, error: Seq<char>) -> Seq<char> {
    block_text(
        object_of_two("function"@, JsonView::String(function), "error"@, JsonView::String(error)),
    )
}

/// Renders the output of the function `function`.
pub fn function_ok(function: &str, output: JsonValue) -> (r: String)
    ensures
        r@ == ok_text(function@, output@),
{
    let object = JsonValue::object_with_two(
        "function",
        JsonValue::String(function.to_string()),
        "output",
        output,
    );
    blockify(&object)
}

/// Renders what went wrong in the function `function`.
pub fn function_error(function: &str, error: &str) -> (r: String)
    ensures
        r@ == error_text(function@, error@),
{
    let object = JsonValue::object_with_two(
        "function",
        JsonValue::String(function.to_string()),
        "error",
        JsonValue::String(error.to_string()),
    );
    blockify(&object)
}

/// The text that says that the function `name` was used in a wrong way,
/// with how to use it.
pub fn usage_error(name: &str, info: &str) -> (r: String)
    ensures
        r@ == usage_error_text(name@, info@),
{
    let mut out = "Error: Incorrect usage of function '".to_string();
    out.append(name);
    out.append("'. See usage below info below:\n");
    out.append(info);
    out
}

/// The names and descriptions of a list of entries.
pub open spec fn listing_of<F>(entries: Seq<(String, (String, F))>) -> Seq<(Seq<char>, Seq<char>)> {
    entries.map_values(|e: (String, (String, F))| (e.0@, e.1.0@))
}

/// Functions that can be called by name. No two have the same name.
pub struct AlpacaFunctions<F: AlpacaFunction> {
    functions: Vec<(String, (String, F))>,
}

impl<F: AlpacaFunction> AlpacaFunctions<F> {
    #[verifier::type_invariant]
    spec fn well_formed(self) -> bool {
        distinct_keys(listing_of(self.functions@))
    }

    /// The names and descriptions of the functions, in the order in which
    /// they are listed: that in which their names were first added.
    pub closed spec fn view(self) -> Seq<(Seq<char>, Seq<char>)> {
        listing_of(self.functions@)
    }

    /// The function held under `name`.
    pub closed spec fn function(self, name: Seq<char>) -> F {
        self.functions@[index_of_key(listing_of(self.functions@), name)].1.1
    }

    /// Whether the collection is `before` with `function` added under
    /// `name` with `description`: in the place of the function of that name,
    /// where there was one, else at the end, and with every other function
    /// as it was.
    pub open spec fn holds_after(
        self,
        before: Self,
        name: Seq<char>,
        description: Seq<char>,
        function: F,
    ) -> bool {
        &&& self@ == (if has_key(before@, name) {
            before@.update(index_of_key(before@, name), (name, description))
        } else {
            before@.push((name, description))
        })
        &&& self.function(name) == function
        &&& forall|other: Seq<char>|
            other != name && has_key(before@, other) ==> self.function(other) == before.function(
                other,
            )
    }

    /// A collection without functions.
    pub fn new() -> (r: Self)
        ensures
            r@.len() == 0,
    {
        AlpacaFunctions { functions: Vec::new() }
    }

    /// How many functions there are.
    pub fn len(&self) -> (n: usize)
        ensures
            n == self@.len(),
    {
        self.functions.len()
    }

    /// Where the function `name` stands.
    fn position(&self, name: &str) -> (r: Option<usize>)
        ensures
            match r {
                Some(at) => at < self@.len() && self@[at as int].0 == name@ && index_of_key(
                    self@,
                    name@,
                ) == at,
                None => !has_key(self@, name@),
            },
    {
        proof {
            use_type_invariant(self);
        }
        let found = position_of(&self.functions, name);
        proof {
            match found {
                Some(at) => {
                    lemma_pairs_lookup(self@, at as int);
                },
                None => {
                    assert forall|j: int| 0 <= j < self@.len() implies self@[j].0 != name@ by {
                        assert(self.functions@[j].0@ != name@);
                    }
                },
            }
        }
        found
    }

    /// Whether there is a function `name`.
    pub fn contains(&self, name: &str) -> (r: bool)
        ensures
            r == has_key(self@, name@),
    {
        self.position(name).is_some()
    }

    /// Adds `function` under its name, with its description: in place of
    /// the function of that name, where there is one.
    pub fn add_function(&mut self, function: F)
        ensures
            exists|name: Seq<char>, description: Seq<char>|
                {
                    &&& function.has_name(name)
                    &&& function.has_description(description)
                    &&& #[trigger] final(self).holds_after(*old(self), name, description, function)
                },
    {
        proof {
            use_type_invariant(&*self);
        }
        let ghost before = *self;
        let ghost listing = self@;
        let name = function.name().to_string();
        let description = function.description().to_string();
        let found = self.position(name.as_str());
        let mut functions: Vec<(String, (String, F))> = Vec::new();
        std::mem::swap(&mut self.functions, &mut functions);
        let ghost at = match found {
            Some(at) => at as int,
            None => listing.len() as int,
        };
        match found {
            Some(at) => {
                functions.set(at, (name, (description, function)));
            },
            None => {
                functions.push((name, (description, function)));
            },
        }
        proof {
            let after = listing_of(functions@);
            assert(after =~= (if has_key(listing, name@) {
                listing.update(at, (name@, description@))
            } else {
                listing.push((name@, description@))
            }));
            assert forall|i: int, j: int| 0 <= i < j < after.len() implies after[i].0
                != after[j].0 by {
                if i != at && j != at {
                    assert(listing[i].0 != listing[j].0);
                }
            }
            lemma_pairs_lookup(after, at);
            assert forall|other: Seq<char>|
                other != name@ && has_key(listing, other) implies functions@[index_of_key(
                after,
                other,
            )].1.1 == before.function(other) by {
                let j = index_of_key(listing, other);
                assert(after[j] == listing[j]);
                lemma_pairs_lookup(after, j);
            }
        }
        self.functions = functions;
        assert(self.holds_after(before, name@, description@, function));
    }

    /// The text that lists the functions: the name and the description of
    /// each, in a fenced block.
    pub fn list_functions(&self) -> (r: String)
        ensures
            r@ == list_functions_text(self@),
    {
        let mut descriptions: Vec<JsonValue> = Vec::new();
        let mut i: usize = 0;
        while i < self.functions.len()
            invariant
                i <= self.functions@.len(),
                descriptions@.len() == i,
                forall|j: int|
                    0 <= j < i ==> (#[trigger] descriptions@[j])@ == listing_entry(self@[j]),
            decreases self.functions@.len() - i,
        {
            descriptions.push(
                JsonValue::object_with_two(
                    "function",
                    JsonValue::String(self.functions[i].0.clone()),
                    "description",
                    JsonValue::String(self.functions[i].1.0.clone()),
                ),
            );
            i += 1;
        }
        proof {
            assert(values_view(descriptions@) =~= self@.map_values(
                |e: (Seq<char>, Seq<char>)| listing_entry(e),
            ));
        }
        let json_output = JsonValue::object_with_two(
            "function",
            JsonValue::String("list_functions".to_string()),
            "output",
            JsonValue::Array(descriptions),
        );
        blockify(&json_output)
    }

    /// Calls the function `function_name` with `arguments`.
    ///
    /// Where there is such a function, the result is what it returns; where
    /// it returns nothing, the text that says how to use it. Where there is
    /// none, the result is the list of functions, and before it, unless
    /// `list_functions` was asked for, that the function was not found.
    pub fn call_function(&self, function_name: &str, arguments: Option<&JsonValue>) -> (r: Option<
        String,
    >)
        ensures
            r is Some,
            !has_key(self@, function_name@) ==> r.unwrap()@ == unknown_function_text(
                function_name@,
                self@,
            ),
            has_key(self@, function_name@) ==> exists|result: Option<Seq<char>>|
                {
                    &&& #[trigger] self.function(function_name@).executes(
                        arguments_view(arguments),
                        result,
                    )
                    &&& match result {
                        Some(text) => r.unwrap()@ == text,
                        None => exists|name: Seq<char>, info: Seq<char>|
                            {
                                &&& self.function(function_name@).has_name(name)
                                &&& self.function(function_name@).has_info(info)
                                &&& r.unwrap()@ == #[trigger] usage_error_text(name, info)
                            },
                    }
                },
    {
        match self.position(function_name) {
            Some(at) => {
                let function = &self.functions[at].1.1;
                assert(*function == self.function(function_name@));
                match function.execute(arguments) {
                    Some(result) => {
                        assert(self.function(function_name@).executes(
                            arguments_view(arguments),
                            Some(result@),
                        ));
                        Some(result)
                    },
                    None => {
                        let name = function.name();
                        let info = function.info();
                        let text = usage_error(name, info);
                        assert(text@ == usage_error_text(name@, info@));
                        assert(self.function(function_name@).has_name(name@));
                        assert(self.function(function_name@).has_info(info@));
                        assert(self.function(function_name@).executes(
                            arguments_view(arguments),
                            None,
                        ));
                        Some(text)
                    },
                }
            },
            None => {
                let mut output_string = String::new();
                if !function_name.eq("list_functions") {
                    output_string.append("Function '");
                    output_string.append(function_name);
                    output_string.append("' not found. Available functions are:\n");
                }
                output_string.append(self.list_functions().as_str());
                assert(output_string@ =~= unknown_function_text(function_name@, self@));
                Some(output_string)
            },
        }
    }

    /// What a model is told about functions before it uses them.
    pub fn intro(&self) -> (r: &'static str)
        ensures
            r@ == FUNCTIONS_INTRO@,
    {
        FUNCTIONS_INTRO
    }
}

} // verus!
