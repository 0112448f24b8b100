//! The action that searches texts with a regular expression.

use crate::action::{
    blockify, block_text, format_response, status_text, AlpacaActionCatalog, AlpacaActionTrait,
};
use crate::json::{
    array_of_texts, object_of_two, values_view, JsonNumber, JsonValue, JsonView,
};
use crate::text::{decimal, decimal_string, texts};
use regex::Regex;
use vstd::prelude::*;
use vstd::string::StringExecFns;

verus! {

/// What the action does and how to ask for it.
pub const DESCRIPTION: &'static str = r#"
The 'regex' action allows you to perform regular expression operations on text.
You can search for patterns in text and extract matches.

- Provide the regular expression pattern as the 'pattern' parameter.
- Provide an array of strings as the 'input' parameter:

Here is an example of how to invoke it:
```json
{
    "action": "regex",
    "pattern": "\\d+",
    "input": [
        "The year is 2025.",
        "The month is 4."
    ]
}
```

This will return all matches of the pattern in the provided input(s).
"#;

/// Why `regex::Regex::new` refuses a pattern: its error, written out.
/// Nothing where the pattern compiles.
pub uninterp spec fn regex_error(pattern: Seq<char>) -> Option<Seq<char>>;

/// What `regex::Regex::find_iter` finds of a pattern that compiles: the
/// texts of the successive matches in `text`.
pub uninterp spec fn regex_matches(pattern: Seq<char>, text: Seq<char>) -> Seq<Seq<char>>;

/// Calls `regex::Regex::new` and gives the error it reports, written out
/// as its `Display` writes it; nothing where the pattern compiles.
#[verifier::external_body]
fn pattern_error(pattern: &str) -> (r: Option<String>)
    ensures
        match r {
            Some(e) => regex_error(pattern@) == Some(e@),
            None => regex_error(pattern@) is None,
        },
{
    Regex::new(pattern).err().map(|e| e.to_string())
}

/// Calls `regex::Regex::find_iter` with the compiled pattern and gives the
/// text of each match, in the order in which the iterator yields them.
#[verifier::external_body]
fn find_matches(pattern: &str, text: &str) -> (r: Vec<String>)
    requires
        regex_error(pattern@) is None,
    ensures
        texts(r@) == regex_matches(pattern@, text@),
{
    match Regex::new(pattern) {
        Ok(re) => re.find_iter(text).map(|m| m.as_str().to_string()).collect(),
        Err(_) => Vec::new(),
    }
}

/// What was found for one item of the input: the item with its matches, or
/// nothing where the item is no string.
pub type RegexFinding = Option<(String, Vec<String>)>;

/// The model of a finding.
pub type RegexFindingView = Option<(Seq<char>, Seq<Seq<char>>)>;

/// The models of a list of findings.
pub open spec fn findings_view(findings: Seq<RegexFinding>) -> Seq<RegexFindingView> {
    findings.map_values(
        |f: RegexFinding|
            match f {
                Some((input, matches)) => Some((input@, texts(matches@))),
                None => None,
            },
    )
}

/// The entry of the results for the finding at `index`.
pub open spec fn result_entry(index: int, finding: RegexFindingView) -> JsonView {
    match finding {
        Some((input, matches)) => object_of_two(
            "input"@,
            JsonView::String(input),
            "matches"@,
            array_of_texts(matches),
        ),
        None => object_of_two(
            "index"@,
            JsonView::Number(JsonNumber::PosInt(index as u64)),
            "error"@,
            JsonView::String("Not a string value"@),
        ),
    }
}

/// The entries of the results, one for each finding.
pub open spec fn result_entries(findings: Seq<RegexFindingView>) -> Seq<JsonView> {
    Seq::new(findings.len(), |i: int| result_entry(i, findings[i]))
}

/// How many matches the findings hold.
pub open spec fn match_count(findings: Seq<RegexFindingView>) -> int
    decreases findings.len(),
{
    if findings.len() == 0 {
        0
    } else {
        match_count(findings.drop_last()) + match findings.last() {
            Some((_, matches)) => matches.len() as int,
            None => 0,
        }
    }
}

/// A count as the results give it: as it is, up to the largest `usize`.
pub open spec fn count_number(count: int) -> JsonView {
    JsonView::Number(
        JsonNumber::PosInt(
            if count > usize::MAX {
                usize::MAX as u64
            } else {
                count as u64
            },
        ),
    )
}

/// The results: an entry for each finding, and the number of all matches.
pub open spec fn results_view(findings: Seq<RegexFindingView>) -> JsonView {
    object_of_two(
        "results"@,
        JsonView::Array(result_entries(findings)),
        "total_count"@,
        count_number(match_count(findings)),
    )
}

/// What is answered where the search was made.
pub open spec fn success_text(pattern: Seq<char>, findings: Seq<RegexFindingView>) -> Seq<char> {
    status_text(
        "Success"@,
        "Regular expression results for pattern '"@ + pattern + "' across "@ + decimal(
            findings.len(),
        ) + " text items:\n"@ + block_text(results_view(findings)),
    )
}

/// What is answered where the request cannot be served.
pub open spec fn error_text(message: Seq<char>) -> Seq<char> {
    "## Error\n\n"@ + message + "\n\n## Help\n"@ + DESCRIPTION@
}

/// The findings of a pattern that compiles in the items of the input.
pub open spec fn findings_of(pattern: Seq<char>, items: Seq<JsonView>) -> Seq<RegexFindingView> {
    Seq::new(
        items.len(),
        |i: int|
            match items[i].text() {
                Some(text) => Some((text, regex_matches(pattern, text))),
                None => None,
            },
    )
}

/// What the action answers to the request `object`.
pub open spec fn regex_response_text(object: JsonView) -> Seq<char> {
    match object.text_field("pattern"@) {
        None => error_text("Missing 'pattern' parameter"@),
        Some(pattern) => match object.field("input"@) {
            None => error_text("Missing 'input' parameter."@),
            Some(input) => match regex_error(pattern) {
                Some(e) => error_text("Invalid regex pattern: "@ + e),
                None => match input {
                    JsonView::Array(items) => success_text(pattern, findings_of(pattern, items)),
                    _ => error_text("The 'input' parameter must be an array of strings"@),
                },
            },
        },
    }
}

/// The answer that says why the request cannot be served, with the
/// description of the action.
pub fn response_error(message: &str) -> (r: String)
    ensures
        r@ == error_text(message@),
{
    let mut out = "## Error\n\n".to_string();
    out.append(message);
    out.append("\n\n## Help\n");
    out.append(DESCRIPTION);
    out
}

/// The results of a search as a JSON value.
pub fn results_value(findings: &Vec<RegexFinding>) -> (r: JsonValue)
    ensures
        r@ == results_view(findings_view(findings@)),
{
    let ghost all = findings_view(findings@);
    let mut all_results: Vec<JsonValue> = Vec::new();
    let mut total_matches: usize = 0;
    let mut index: usize = 0;
    proof {
        assert(all.take(0) =~= Seq::<RegexFindingView>::empty());
    }
    while index < findings.len()
        invariant
            index <= findings@.len(),
            all == findings_view(findings@),
            all_results@.len() == index,
            forall|i: int| 0 <= i < index ==> (#[trigger] all_results@[i])@ == result_entry(i, all[i]),
            0 <= match_count(all.take(index as int)),
            total_matches == (if match_count(all.take(index as int)) > usize::MAX {
                usize::MAX as int
            } else {
                match_count(all.take(index as int))
            }),
        decreases findings@.len() - index,
    {
        proof {
            let upto = all.take(index + 1);
            assert(upto.drop_last() =~= all.take(index as int));
            assert(upto.last() == all[index as int]);
        }
        match &findings[index] {
            Some((input, matches)) => {
                total_matches = total_matches.saturating_add(matches.len());
                all_results.push(
                    JsonValue::object_with_two(
                        "input",
                        JsonValue::String(input.clone()),
                        "matches",
                        JsonValue::from_strings(matches),
                    ),
                );
            },
            None => {
                all_results.push(
                    JsonValue::object_with_two(
                        "index",
                        JsonValue::Number(JsonNumber::PosInt(index as u64)),
                        "error",
                        JsonValue::String("Not a string value".to_string()),
                    ),
                );
            },
        }
        index += 1;
    }
    proof {
        assert(all.take(findings@.len() as int) =~= all);
        assert(values_view(all_results@) =~= result_entries(all));
    }
    JsonValue::object_with_two(
        "results",
        JsonValue::Array(all_results),
        "total_count",
        JsonValue::Number(JsonNumber::PosInt(total_matches as u64)),
    )
}

/// The answer that reports the findings of a search.
pub fn success_response(pattern: &str, findings: &Vec<RegexFinding>) -> (r: String)
    ensures
        r@ == success_text(pattern@, findings_view(findings@)),
{
    let response = results_value(findings);
    let regex_block = blockify(&response);
    let mut response_text = "Regular expression results for pattern '".to_string();
    response_text.append(pattern);
    response_text.append("' across ");
    response_text.append(decimal_string(findings.len()).as_str());
    response_text.append(" text items:\n");
    response_text.append(regex_block.as_str());
    format_response("Success", response_text.as_str())
}

/// The action `regex`.
pub struct AlpacaActionRegex {}

impl AlpacaActionRegex {
    pub fn new() -> (r: Self) {
        Self {}
    }
}

impl AlpacaActionTrait for AlpacaActionRegex {
    open spec fn has_name(&self, name: Seq<char>) -> bool {
        name == "regex"@
    }

    open spec fn has_description(&self, description: Seq<char>) -> bool {
        description == DESCRIPTION@
    }

    open spec fn answers(
        &self,
        object: JsonView,
        context: Map<Seq<char>, Seq<char>>,
        response: Seq<char>,
    ) -> bool {
        response == regex_response_text(object)
    }

    fn name(&self) -> (r: &str) {
        "regex"
    }

    fn description(&self) -> (r: &str) {
        DESCRIPTION
    }

    fn invoke(&self, object: &JsonValue, _context: &AlpacaActionCatalog) -> (r: String) {
        let pattern = match object.get_str("pattern") {
            Some(pattern) => pattern,
            None => {
                return response_error("Missing 'pattern' parameter");
            },
        };
        let input = match object.get("input") {
            Some(input) => input,
            None => {
                return response_error("Missing 'input' parameter.");
            },
        };
        match pattern_error(pattern) {
            Some(e) => {
                let mut error = "Invalid regex pattern: ".to_string();
                error.append(e.as_str());
                return response_error(error.as_str());
            },
            None => {},
        }
        match input.as_array() {
            Some(texts) => {
                let ghost items = values_view(texts@);
                let mut findings: Vec<RegexFinding> = Vec::new();
                let mut index: usize = 0;
                while index < texts.len()
                    invariant
                        index <= texts@.len(),
                        items == values_view(texts@),
                        regex_error(pattern@) is None,
                        findings@.len() == index,
                        forall|i: int|
                            0 <= i < index ==> (#[trigger] findings_view(findings@)[i])
                                == findings_of(pattern@, items)[i],
                    decreases texts@.len() - index,
                {
                    let ghost before = findings_view(findings@);
                    let finding = match texts[index].as_str() {
                        Some(text) => {
                            let matches = find_matches(pattern, text);
                            Some((text.to_string(), matches))
                        },
                        None => None,
                    };
                    findings.push(finding);
                    proof {
                        let now = findings_view(findings@);
                        assert forall|i: int| 0 <= i < index + 1 implies (#[trigger] now[i])
                            == findings_of(pattern@, items)[i] by {
                            if i < index {
                                assert(now[i] == before[i]);
                            }
                        }
                    }
                    index += 1;
                }
                proof {
                    assert(findings_view(findings@) =~= findings_of(pattern@, items));
                }
                success_response(pattern, &findings)
            },
            None => response_error("The 'input' parameter must be an array of strings"),
        }
    }
}

} // verus!
