//! Finds the tool calls that a message holds between `tool_call` fences.

use crate::fence::{fenced_spans, scan};
use crate::json::{parse_each, JsonView};
use crate::text::{chars_of, texts};
use crate::tool_call::AlpacaToolCall;
use vstd::prelude::*;

verus! {

/// The marker that opens a tool call.
pub open spec fn start_marker() -> Seq<char> {
    "```tool_call"@
}

/// The marker that closes a tool call.
pub open spec fn end_marker() -> Seq<char> {
    "```"@
}

/// The JSON values that a list of tool calls is written as.
pub open spec fn calls_view(calls: Seq<AlpacaToolCall>) -> Seq<JsonView> {
    calls.map_values(|call: AlpacaToolCall| call@)
}

/// The tool calls that `message` holds: the fenced spans that are JSON
/// documents, in the order in which they stand.
pub open spec fn tool_calls_in(message: Seq<char>) -> Seq<JsonView> {
    parse_each(fenced_spans(message, start_marker(), end_marker(), 0))
}

/// The tool calls found in one message.
pub struct AlapacaToolDispatch {
    tool_calls: Vec<AlpacaToolCall>,
}

impl AlapacaToolDispatch {
    /// The tool calls held, in the order in which they stood in the message.
    pub closed spec fn view(self) -> Seq<JsonView> {
        calls_view(self.tool_calls@)
    }

    /// Finds the tool calls of `message`. Nothing is called and nothing is
    /// left out for being there twice.
    pub fn new(message: &str) -> (r: Self)
        ensures
            r@ == tool_calls_in(message@),
    {
        let tool_calls = Self::create_tool_calls(message);
        AlapacaToolDispatch { tool_calls }
    }

    /// The tool calls found.
    pub fn tool_calls(&self) -> (r: &Vec<AlpacaToolCall>)
        ensures
            calls_view(r@) == self@,
    {
        &self.tool_calls
    }

    /// Reads each fenced span of `message` as a tool call and keeps those
    /// that are JSON documents.
    pub fn create_tool_calls(message: &str) -> (r: Vec<AlpacaToolCall>)
        ensures
            calls_view(r@) == tool_calls_in(message@),
    {
        let spans = Self::find_tool_calls(message);
        let mut calls: Vec<AlpacaToolCall> = Vec::new();
        let mut i: usize = 0;
        assert(texts(spans@).take(0) =~= Seq::<Seq<char>>::empty());
        while i < spans.len()
            invariant
                i <= spans.len(),
                calls_view(calls@) == parse_each(texts(spans@).take(i as int)),
            decreases spans.len() - i,
        {
            let ghost before = calls@;
            proof {
                let upto = texts(spans@).take(i + 1);
                assert(upto.drop_last() =~= texts(spans@).take(i as int));
                assert(upto.last() == spans@[i as int]@);
            }
            match AlpacaToolCall::from_str(spans[i].as_str()) {
                Ok(call) => {
                    calls.push(call);
                    assert(calls_view(calls@) =~= calls_view(before).push(call@));
                },
                Err(_) => {},
            }
            i += 1;
        }
        assert(texts(spans@).take(spans.len() as int) =~= texts(spans@));
        calls
    }

    /// The fenced spans of `message`, each without the white space around it.
    pub fn find_tool_calls(message: &str) -> (r: Vec<String>)
        ensures
            texts(r@) == fenced_spans(message@, start_marker(), end_marker(), 0),
    {
        let text = chars_of(message);
        let open = chars_of("```tool_call");
        let close = chars_of("```");
        proof {
            reveal_strlit("```tool_call");
        }
        scan(&text, &open, &close)
    }
}

} // verus!
