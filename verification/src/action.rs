//! The registry of actions and the engine that finds the requests of a
//! message, resolves each against the registry and renders the responses.

use crate::action_describe::AlpacaActionDescribe;
use crate::action_list::AlpacaActionList;
use crate::action_regex::AlpacaActionRegex;
use crate::fence::{fenced_spans, scan};
use crate::json::{
    array_of_texts, entries_view, json_compact, json_parse, json_pretty, object_of, parse_each,
    values_view, JsonValue, JsonView,
};
use crate::keyed::{
    distinct_keys, index_of_key, lemma_pairs_absent, lemma_pairs_lookup, lemma_pairs_push,
    lemma_pairs_update, pairs_to_map, position_of,
};
use crate::text::{
    chars_of, lemma_lex_lt_transitive, lemma_sorted_without_duplicates,
    lemma_strictly_sorted_unique, lex_lt, replace, replace_all, sort_strings, string_of,
    strictly_sorted, texts,
};
use vstd::prelude::*;
use vstd::string::StringExecFns;

verus! {

/// How to list the actions: the hint given where an action is not found.
pub const ACTION_NOT_FOUND: &'static str =
    "\nUse the `list_actions` action to get a list of all of the available actions.\nHere is an example of how to invoke it:\n```json\n{\n    \"action\": \"list_actions\"\n}\n```\n";

/// A JSON text in a fenced block.
pub open spec fn fenced_text(json: Seq<char>) -> Seq<char> {
    "```json\n"@ + json + "\n```\n"@
}

/// The text of a value in a fenced block.
pub open spec fn block_text(value: JsonView) -> Seq<char> {
    fenced_text(json_pretty(value))
}

/// What is answered where no action has the name `action`: that it was not
/// found, and how to list the actions there are.
pub open spec fn not_found_text(action: Seq<char>) -> Seq<char> {
    "## Error\n\n"@ + not_found_phrase(action) + "\n"@ + ACTION_NOT_FOUND@
}

/// The sentence that says that no action has the name `action`.
pub open spec fn not_found_phrase(action: Seq<char>) -> Seq<char> {
    "Action '"@ + action + "' not found."@
}

/// `names` lists the texts of `of`, each once, in dictionary order.
pub open spec fn lists_sorted(names: Seq<Seq<char>>, of: Set<Seq<char>>) -> bool {
    strictly_sorted(names) && names.to_set() == of
}

/// The texts of `of` in dictionary order.
pub open spec fn sorted_names(of: Set<Seq<char>>) -> Seq<Seq<char>> {
    choose|names: Seq<Seq<char>>| lists_sorted(names, of)
}

/// A list that holds the texts of a set in dictionary order is the one that
/// `sorted_names` names.
pub proof fn lemma_sorted_names(names: Seq<Seq<char>>, of: Set<Seq<char>>)
    requires
        lists_sorted(names, of),
    ensures
        sorted_names(of) == names,
{
    let chosen = sorted_names(of);
    assert(lists_sorted(chosen, of));
    lemma_strictly_sorted_unique(chosen, names);
}

/// The text that lists the actions with the given names.
pub open spec fn action_list_text(names: Seq<Seq<char>>) -> Seq<char> {
    "## Available Actions\n\n"@ + "Here is the list of available actions:"@ + "\n"@ + block_text(
        object_of("actions"@, array_of_texts(names)),
    )
}

/// Puts a JSON text into a fenced block.
pub fn fenced(json: &str) -> (r: String)
    ensures
        r@ == fenced_text(json@),
{
    let mut out = "```json\n".to_string();
    out.append(json);
    out.append("\n```\n");
    out
}

/// Renders a value as a fenced block of indented JSON.
pub fn blockify(object: &JsonValue) -> (r: String)
    ensures
        r@ == block_text(object@),
{
    fenced(object.to_string_pretty().as_str())
}

/// What `describe_action` returns for the name `action`, given the
/// descriptions held.
pub open spec fn describe_text(catalog: Map<Seq<char>, Seq<char>>, action: Seq<char>) -> Seq<char> {
    if catalog.contains_key(action) {
        catalog[action]
    } else {
        not_found_text(action)
    }
}

/// The text that says that no action has the name `action`.
pub fn response_action_not_found(action: &str) -> (r: String)
    ensures
        r@ == not_found_text(action@),
{
    let mut out = "## Error\n\n".to_string();
    out.append("Action '");
    out.append(action);
    out.append("' not found.");
    out.append("\n");
    out.append(ACTION_NOT_FOUND);
    assert(out@ =~= not_found_text(action@));
    out
}

/// What the registry knows of its actions without calling them: the name
/// and the description of each. An action is given this as its context.
pub struct AlpacaActionCatalog {
    entries: Vec<(String, String)>,
}

/// The names and descriptions of a list of entries.
pub open spec fn catalog_pairs(entries: Seq<(String, String)>) -> Seq<(Seq<char>, Seq<char>)> {
    entries.map_values(|e: (String, String)| (e.0@, e.1@))
}

impl AlpacaActionCatalog {
    #[verifier::type_invariant]
    spec fn well_formed(self) -> bool {
        distinct_keys(catalog_pairs(self.entries@))
    }

    /// The entries as pairs of name and description, in the order held.
    pub closed spec fn pairs(self) -> Seq<(Seq<char>, Seq<char>)> {
        catalog_pairs(self.entries@)
    }

    /// The catalog as a map from the name of an action to its description.
    pub open spec fn view(self) -> Map<Seq<char>, Seq<char>> {
        pairs_to_map(self.pairs())
    }

    /// Where the action `name` stands among the entries.
    fn position(&self, name: &str) -> (r: Option<usize>)
        ensures
            match r {
                Some(at) => at < self.pairs().len() && self.pairs()[at as int].0 == name@
                    && self@.contains_key(name@) && self@[name@] == self.pairs()[at as int].1,
                None => !self@.contains_key(name@),
            },
    {
        proof {
            use_type_invariant(self);
        }
        let found = position_of(&self.entries, name);
        proof {
            match found {
                Some(at) => {
                    lemma_pairs_lookup(self.pairs(), at as int);
                },
                None => {
                    assert forall|j: int| 0 <= j < self.pairs().len() implies self.pairs()[j].0
                        != name@ by {
                        assert(self.entries@[j].0@ != name@);
                    }
                    lemma_pairs_absent(self.pairs(), name@);
                },
            }
        }
        found
    }

    /// A catalog without actions.
    pub fn new() -> (r: AlpacaActionCatalog)
        ensures
            r@ == Map::<Seq<char>, Seq<char>>::empty(),
            r.pairs().len() == 0,
    {
        let r = AlpacaActionCatalog { entries: Vec::new() };
        assert(r@ =~= Map::<Seq<char>, Seq<char>>::empty());
        r
    }

    /// Enters the action `name` with its description, in place of an entry
    /// of that name if there is one, and says where the entry stands.
    fn record(&mut self, name: String, description: String) -> (at: usize)
        ensures
            final(self)@ == old(self)@.insert(name@, description@),
            at < final(self).pairs().len(),
            final(self).pairs()[at as int].0 == name@,
            old(self)@.contains_key(name@) ==> final(self).pairs().len() == old(self).pairs().len(),
            !old(self)@.contains_key(name@) ==> at == old(self).pairs().len()
                && final(self).pairs().len() == old(self).pairs().len() + 1,
            forall|j: int|
                0 <= j < old(self).pairs().len() && j != at ==> final(self).pairs()[j]
                    == old(self).pairs()[j],
    {
        proof {
            use_type_invariant(&*self);
        }
        let ghost before = self.pairs();
        let found = self.position(name.as_str());
        let mut entries: Vec<(String, String)> = Vec::new();
        std::mem::swap(&mut self.entries, &mut entries);
        let at = match found {
            Some(at) => {
                proof {
                    lemma_pairs_update(before, at as int, description@);
                    assert(catalog_pairs(entries@.update(at as int, (name, description)))
                        =~= before.update(at as int, (before[at as int].0, description@)));
                }
                entries.set(at, (name, description));
                at
            },
            None => {
                proof {
                    assert forall|j: int| 0 <= j < before.len() implies before[j].0 != name@ by {
                        if before[j].0 == name@ {
                            lemma_pairs_lookup(before, j);
                        }
                    }
                    lemma_pairs_push(before, name@, description@);
                    assert(catalog_pairs(entries@.push((name, description))) =~= before.push(
                        (name@, description@),
                    ));
                }
                entries.push((name, description));
                entries.len() - 1
            },
        };
        self.entries = entries;
        at
    }

    /// The description of the action `action_name`; where there is no such
    /// action, the text that says so.
    pub fn describe_action(&self, action_name: &str) -> (r: String)
        ensures
            r@ == describe_text(self@, action_name@),
    {
        match self.position(action_name) {
            Some(at) => self.entries[at].1.clone(),
            None => response_action_not_found(action_name),
        }
    }

    /// The text that lists the names of the actions.
    pub fn action_list(&self) -> (r: String)
        ensures
            r@ == action_list_text(sorted_names(self@.dom())),
    {
        let action_names = self.action_names();
        let json_value = JsonValue::object_with("actions", JsonValue::from_strings(&action_names));
        let mut out = "## Available Actions\n\n".to_string();
        out.append("Here is the list of available actions:");
        out.append("\n");
        out.append(blockify(&json_value).as_str());
        out
    }

    /// The names of the actions in dictionary order, whatever the order in
    /// which they were registered.
    pub fn action_names(&self) -> (r: Vec<String>)
        ensures
            lists_sorted(texts(r@), self@.dom()),
            texts(r@) == sorted_names(self@.dom()),
    {
        proof {
            use_type_invariant(self);
        }
        let mut names: Vec<String> = Vec::new();
        let mut k: usize = 0;
        while k < self.entries.len()
            invariant
                k <= self.entries@.len(),
                names@.len() == k,
                forall|j: int| 0 <= j < k ==> (#[trigger] names@[j])@ == self.pairs()[j].0,
            decreases self.entries@.len() - k,
        {
            names.push(self.entries[k].0.clone());
            k += 1;
        }
        let sorted = sort_strings(names);
        proof {
            let held = texts(names@);
            let pairs = self.pairs();
            assert(held.no_duplicates()) by {
                assert forall|i: int, j: int|
                    0 <= i < held.len() && 0 <= j < held.len() && i != j implies held[i]
                    != held[j] by {
                    if i < j {
                        assert(pairs[i].0 != pairs[j].0);
                    } else {
                        assert(pairs[j].0 != pairs[i].0);
                    }
                }
            }
            lemma_sorted_without_duplicates(texts(sorted@), held);
            assert(held.to_set() =~= self@.dom()) by {
                assert forall|x: Seq<char>| held.to_set().contains(x) <==> self@.dom().contains(
                    x,
                ) by {
                    if held.contains(x) {
                        let i = choose|i: int| 0 <= i < held.len() && held[i] == x;
                        lemma_pairs_lookup(pairs, i);
                    }
                    if self@.dom().contains(x) {
                        let i = index_of_key(pairs, x);
                        assert(held[i] == x);
                    }
                }
            }
            lemma_sorted_names(texts(sorted@), self@.dom());
        }
        sorted
    }
}

/// What an action has to offer: a name, a description, and an answer to a
/// request.
///
/// The three predicates say what the three methods may return. As they
/// stand they allow anything; an action that is verified says more.
pub trait AlpacaActionTrait {
    /// Whether `name()` may return `name`.
    open spec fn has_name(&self, name: Seq<char>) -> bool {
        true
    }

    /// Whether `description()` may return `description`.
    open spec fn has_description(&self, description: Seq<char>) -> bool {
        true
    }

    /// Whether `invoke` may return `response` for the request `object`, given
    /// the descriptions `context`.
    open spec fn answers(
        &self,
        object: JsonView,
        context: Map<Seq<char>, Seq<char>>,
        response: Seq<char>,
    ) -> bool {
        true
    }

    /// The name under which the action is registered and asked for.
    fn name(&self) -> (r: &str)
        ensures
            self.has_name(r@),
    ;

    /// What the action does and how to ask for it.
    fn description(&self) -> (r: &str)
        ensures
            self.has_description(r@),
    ;

    /// Answers the request `object`. `context` holds the names and
    /// descriptions of all registered actions.
    fn invoke(&self, object: &JsonValue, context: &AlpacaActionCatalog) -> (r: String)
        ensures
            self.answers(object@, context@, r@),
    ;
}

impl<T: AlpacaActionTrait + ?Sized> AlpacaActionTrait for Box<T> {
    open spec fn has_name(&self, name: Seq<char>) -> bool {
        (**self).has_name(name)
    }

    open spec fn has_description(&self, description: Seq<char>) -> bool {
        (**self).has_description(description)
    }

    open spec fn answers(
        &self,
        object: JsonView,
        context: Map<Seq<char>, Seq<char>>,
        response: Seq<char>,
    ) -> bool {
        (**self).answers(object, context, response)
    }

    fn name(&self) -> (r: &str) {
        (**self).name()
    }

    fn description(&self) -> (r: &str) {
        (**self).description()
    }

    fn invoke(&self, object: &JsonValue, context: &AlpacaActionCatalog) -> (r: String) {
        (**self).invoke(object, context)
    }
}

/// The marker that opens a block of JSON.
pub open spec fn json_marker() -> Seq<char> {
    "```json"@
}

/// The marker that closes a block.
pub open spec fn closing_marker() -> Seq<char> {
    "```"@
}

/// The text that some encodings leave in place of a non-breaking space.
pub open spec fn stray_space() -> Seq<char> {
    "<0xC2><0xA0>"@
}

/// A span with each stray non-breaking space replaced by a space.
pub open spec fn normalized(span: Seq<char>) -> Seq<char> {
    replace_all(span, stray_space(), " "@)
}

/// The values that `message` holds, in the order in which they stand: the
/// JSON blocks that are JSON documents; where the message has no JSON block,
/// the message itself if it is a JSON document.
pub open spec fn candidates_in(message: Seq<char>) -> Seq<JsonView> {
    let spans = fenced_spans(message, json_marker(), closing_marker(), 0);
    if spans.len() > 0 {
        parse_each(spans.map_values(|span: Seq<char>| normalized(span)))
    } else {
        match json_parse(message) {
            Some(value) => seq![value],
            None => Seq::empty(),
        }
    }
}

/// Whether the value at `at` is written like a value before it.
pub open spec fn seen_before(values: Seq<JsonView>, at: int) -> bool {
    exists|j: int| 0 <= j < at && json_compact(values[j]) == json_compact(values[at])
}

/// `values` without those that are written like an earlier one: of values
/// written alike the first stays, in its place.
pub open spec fn without_duplicates(values: Seq<JsonView>) -> Seq<JsonView>
    decreases values.len(),
{
    if values.len() == 0 {
        Seq::empty()
    } else {
        let head = without_duplicates(values.drop_last());
        if seen_before(values, values.len() - 1) {
            head
        } else {
            head.push(values.last())
        }
    }
}

/// Whether the entry at `at` has the text of an earlier entry.
pub open spec fn written_before(entries: Seq<(Seq<char>, JsonView)>, at: int) -> bool {
    exists|j: int| 0 <= j < at && entries[j].0 == entries[at].0
}

/// The values of those entries whose text no earlier entry has, in order.
pub open spec fn first_of_each_view(entries: Seq<(Seq<char>, JsonView)>) -> Seq<JsonView>
    decreases entries.len(),
{
    if entries.len() == 0 {
        Seq::empty()
    } else {
        let head = first_of_each_view(entries.drop_last());
        if written_before(entries, entries.len() - 1) {
            head
        } else {
            head.push(entries.last().1)
        }
    }
}

/// Each value beside the text that it is written as.
pub open spec fn written(values: Seq<JsonView>) -> Seq<(Seq<char>, JsonView)> {
    values.map_values(|v: JsonView| (json_compact(v), v))
}

/// Duplicate removal keeps the first of the values that are written alike.
pub proof fn lemma_first_of_each_written(values: Seq<JsonView>)
    ensures
        first_of_each_view(written(values)) == without_duplicates(values),
    decreases values.len(),
{
    if values.len() > 0 {
        let entries = written(values);
        let at = values.len() - 1;
        lemma_first_of_each_written(values.drop_last());
        assert(entries.drop_last() =~= written(values.drop_last()));
        if written_before(entries, at) {
            let j = choose|j: int| 0 <= j < at && entries[j].0 == entries[at].0;
            assert(json_compact(values[j]) == json_compact(values[at]));
        }
        if seen_before(values, at) {
            let j = choose|j: int|
                0 <= j < at && json_compact(values[j]) == json_compact(values[at]);
            assert(entries[j].0 == entries[at].0);
        }
    }
}

/// Keeps the value of each entry whose text no earlier entry has.
pub fn first_of_each(entries: Vec<(String, JsonValue)>) -> (r: Vec<JsonValue>)
    ensures
        values_view(r@) == first_of_each_view(entries_view(entries@)),
{
    let ghost all = entries_view(entries@);
    let mut seen: Vec<String> = Vec::new();
    let mut result: Vec<JsonValue> = Vec::new();
    proof {
        assert(all.take(0) =~= Seq::<(Seq<char>, JsonView)>::empty());
    }
    for entry in it: entries
        invariant
            it.seq() == entries@,
            all == entries_view(entries@),
            seen@.len() == it.index(),
            forall|j: int| 0 <= j < it.index() ==> (#[trigger] seen@[j])@ == all[j].0,
            values_view(result@) == first_of_each_view(all.take(it.index() as int)),
    {
        let ghost k = it.index() as int;
        let ghost kept = result@;
        let (text, value) = entry;
        let mut found = false;
        let mut j: usize = 0;
        while j < seen.len()
            invariant
                j <= seen@.len(),
                found <==> exists|m: int| 0 <= m < j && (#[trigger] seen@[m])@ == text@,
            decreases seen@.len() - j,
        {
            if seen[j].as_str().eq(text.as_str()) {
                found = true;
            }
            j += 1;
        }
        proof {
            let upto = all.take(k + 1);
            assert(upto.drop_last() =~= all.take(k));
            assert(upto.last() == (text@, value@));
            if found {
                let m = choose|m: int| 0 <= m < seen@.len() && (#[trigger] seen@[m])@ == text@;
                assert(upto[m].0 == upto[k].0);
                assert(written_before(upto, k));
            } else {
                if written_before(upto, k) {
                    let m = choose|m: int| 0 <= m < k && upto[m].0 == upto[k].0;
                    assert(seen@[m]@ == text@);
                }
            }
        }
        if !found {
            result.push(value);
            proof {
                assert(values_view(result@) =~= values_view(kept).push(value@));
            }
        }
        seen.push(text);
    }
    proof {
        assert(all.take(entries@.len() as int) =~= all);
    }
    result
}

/// The requests of `message`: its values, each once.
pub open spec fn requests_in(message: Seq<char>) -> Seq<JsonView> {
    without_duplicates(candidates_in(message))
}

/// The name of the action that a request asks for: its field `action`,
/// where that is a string.
pub open spec fn requested(request: JsonView) -> Option<Seq<char>> {
    request.text_field("action"@)
}

/// Those of `requests` that ask for an action, in order.
pub open spec fn invocations(requests: Seq<JsonView>) -> Seq<JsonView>
    decreases requests.len(),
{
    if requests.len() == 0 {
        Seq::empty()
    } else {
        let head = invocations(requests.drop_last());
        if requested(requests.last()) is Some {
            head.push(requests.last())
        } else {
            head
        }
    }
}

/// The response of the action `action` under the header that names it.
pub open spec fn action_response_text(action: Seq<char>, response: Seq<char>) -> Seq<char> {
    "\n# `"@ + action + "` Action Response\n\n"@ + response + "\n"@
}

/// The texts `parts`, one after the other, with a line break between two.
pub open spec fn join_lines(parts: Seq<Seq<char>>) -> Seq<char>
    decreases parts.len(),
{
    if parts.len() == 0 {
        Seq::empty()
    } else if parts.len() == 1 {
        parts[0]
    } else {
        join_lines(parts.drop_last()) + "\n"@ + parts.last()
    }
}

/// The names and responses of a list of answers.
pub open spec fn answers_view(answers: Seq<(String, String)>) -> Seq<(Seq<char>, Seq<char>)> {
    answers.map_values(|a: (String, String)| (a.0@, a.1@))
}

/// The text made of the answers, each a pair of the name of an action and
/// its response: every response under its header, in order.
pub open spec fn rendered(answers: Seq<(Seq<char>, Seq<char>)>) -> Seq<char> {
    join_lines(answers.map_values(|a: (Seq<char>, Seq<char>)| action_response_text(a.0, a.1)))
}

/// A response under the heading of its status.
pub open spec fn status_text(status: Seq<char>, response: Seq<char>) -> Seq<char> {
    "## "@ + status + "\n\n"@ + response + "\n"@
}

/// Puts a response under the heading of its status.
pub fn format_response(status: &str, response: &str) -> (r: String)
    ensures
        r@ == status_text(status@, response@),
{
    let mut out = "## ".to_string();
    out.append(status);
    out.append("\n\n");
    out.append(response);
    out.append("\n");
    out
}

/// Puts the response of an action under the header that names the action.
pub fn string_action_response(action: &str, response: &str) -> (r: String)
    ensures
        r@ == action_response_text(action@, response@),
{
    let mut out = "\n# `".to_string();
    out.append(action);
    out.append("` Action Response\n\n");
    out.append(response);
    out.append("\n");
    out
}

/// Renders the answers of one message: nothing where there is no answer,
/// else every response under its header, in order, with a line break
/// between two.
pub fn render_responses(answers: &Vec<(String, String)>) -> (r: Option<String>)
    ensures
        match r {
            None => answers@.len() == 0,
            Some(text) => answers@.len() > 0 && text@ == rendered(answers_view(answers@)),
        },
{
    if answers.len() == 0 {
        return None;
    }
    let ghost parts = answers_view(answers@).map_values(
        |a: (Seq<char>, Seq<char>)| action_response_text(a.0, a.1),
    );
    let mut out = string_action_response(answers[0].0.as_str(), answers[0].1.as_str());
    let mut i: usize = 1;
    proof {
        assert(parts.take(1) =~= seq![parts[0]]);
    }
    while i < answers.len()
        invariant
            1 <= i <= answers@.len(),
            parts == answers_view(answers@).map_values(
                |a: (Seq<char>, Seq<char>)| action_response_text(a.0, a.1),
            ),
            out@ == join_lines(parts.take(i as int)),
        decreases answers@.len() - i,
    {
        let next = string_action_response(answers[i].0.as_str(), answers[i].1.as_str());
        proof {
            let upto = parts.take(i + 1);
            assert(upto.drop_last() =~= parts.take(i as int));
            assert(upto.last() == next@);
        }
        out.append("\n");
        out.append(next.as_str());
        i += 1;
    }
    proof {
        assert(parts.take(answers@.len() as int) =~= parts);
    }
    Some(out)
}

/// The registry of actions, and the engine that answers the requests of a
/// message with them. No two actions have the same name.
pub struct AlpacaActions<A: AlpacaActionTrait> {
    catalog: AlpacaActionCatalog,
    actions: Vec<A>,
}

impl<A: AlpacaActionTrait> AlpacaActions<A> {
    #[verifier::type_invariant]
    spec fn well_formed(self) -> bool {
        self.actions@.len() == self.catalog.pairs().len()
    }

    /// The registry as a map from the name of an action to its description.
    pub closed spec fn view(self) -> Map<Seq<char>, Seq<char>> {
        self.catalog@
    }

    /// The action registered under `name`.
    pub closed spec fn action(self, name: Seq<char>) -> A {
        self.actions@[index_of_key(self.catalog.pairs(), name)]
    }

    /// Whether the registry is `before` with `action` registered under
    /// `name` with `description`: in place of the action of that name, where
    /// there was one, and with every other action as it was.
    pub open spec fn holds_after(
        self,
        before: Self,
        name: Seq<char>,
        description: Seq<char>,
        action: A,
    ) -> bool {
        &&& self@ == before@.insert(name, description)
        &&& self.action(name) == action
        &&& forall|other: Seq<char>|
            other != name && before@.contains_key(other) ==> self.action(other) == before.action(
                other,
            )
    }

    /// Whether `response` may answer `invocation`: where the action asked
    /// for is registered, as that action's answer to the request, given the
    /// descriptions of all actions; where it is not, as the text that says so.
    pub open spec fn fits(self, invocation: JsonView, response: Seq<char>) -> bool {
        let name = requested(invocation).unwrap();
        if self@.contains_key(name) {
            self.action(name).answers(invocation, self@, response)
        } else {
            response == not_found_text(name)
        }
    }

    /// Whether `answers` answer `invocations` one by one: each under the
    /// name asked for, with a response that fits.
    pub open spec fn answered(
        self,
        invocations: Seq<JsonView>,
        answers: Seq<(Seq<char>, Seq<char>)>,
    ) -> bool {
        &&& answers.len() == invocations.len()
        &&& forall|i: int|
            0 <= i < invocations.len() ==> {
                &&& requested(invocations[i]) == Some((#[trigger] answers[i]).0)
                &&& self.fits(invocations[i], answers[i].1)
            }
    }

    /// Whether `text` may be the answer to `requests`: the responses of
    /// answers that answer those of the requests that name an action, one by
    /// one.
    pub open spec fn may_answer_requests(self, requests: Seq<JsonView>, text: Seq<char>) -> bool {
        exists|answers: Seq<(Seq<char>, Seq<char>)>|
            #[trigger] self.answered(invocations(requests), answers) && text == rendered(answers)
    }

    /// Whether `text` may be the answer to `message`: to its requests.
    pub open spec fn may_answer(self, message: Seq<char>, text: Seq<char>) -> bool {
        self.may_answer_requests(requests_in(message), text)
    }

    /// A registry without actions.
    pub fn empty() -> (r: Self)
        ensures
            r@ == Map::<Seq<char>, Seq<char>>::empty(),
    {
        AlpacaActions { catalog: AlpacaActionCatalog::new(), actions: Vec::new() }
    }

    /// Registers `action` under the given name and description.
    pub fn register(&mut self, name: &str, description: &str, action: A)
        ensures
            final(self).holds_after(*old(self), name@, description@, action),
    {
        proof {
            use_type_invariant(&*self);
            use_type_invariant(&self.catalog);
        }
        let ghost before = *self;
        let ghost pairs = self.catalog.pairs();
        let mut whole = Self::empty();
        std::mem::swap(self, &mut whole);
        let AlpacaActions { mut catalog, mut actions } = whole;
        let at = catalog.record(name.to_string(), description.to_string());
        if at < actions.len() {
            actions.set(at, action);
        } else {
            actions.push(action);
        }
        proof {
            use_type_invariant(&catalog);
            let after = catalog.pairs();
            lemma_pairs_lookup(after, at as int);
            assert forall|other: Seq<char>|
                other != name@ && before@.contains_key(other) implies actions@[index_of_key(
                after,
                other,
            )] == before.action(other) by {
                let j = index_of_key(pairs, other);
                lemma_pairs_lookup(pairs, j);
                assert(j != at) by {
                    if j == at {
                        if before@.contains_key(name@) {
                            let i = index_of_key(pairs, name@);
                            lemma_pairs_lookup(pairs, i);
                        }
                    }
                }
                assert(after[j] == pairs[j]);
                lemma_pairs_lookup(after, j);
            }
        }
        *self = AlpacaActions { catalog, actions };
    }

    /// Registers `action` under its name, with its description: in place of
    /// the action of that name, where there is one.
    pub fn add_action(&mut self, action: A)
        ensures
            exists|name: Seq<char>, description: Seq<char>|
                {
                    &&& action.has_name(name)
                    &&& action.has_description(description)
                    &&& #[trigger] final(self).holds_after(*old(self), name, description, action)
                },
    {
        let name = action.name().to_string();
        let description = action.description().to_string();
        self.register(name.as_str(), description.as_str(), action);
        assert(self.holds_after(*old(self), name@, description@, action));
    }

    /// The action registered under exactly the name `name`, if there is one.
    pub fn lookup(&self, name: &str) -> (r: Option<&A>)
        ensures
            match r {
                Some(action) => self@.contains_key(name@) && *action == self.action(name@),
                None => !self@.contains_key(name@),
            },
    {
        proof {
            use_type_invariant(self);
            use_type_invariant(&self.catalog);
        }
        match self.catalog.position(name) {
            Some(at) => {
                proof {
                    lemma_pairs_lookup(self.catalog.pairs(), at as int);
                }
                Some(&self.actions[at])
            },
            None => None,
        }
    }

    /// The names and descriptions of the actions: what an action is given
    /// as its context.
    pub fn catalog(&self) -> (r: &AlpacaActionCatalog)
        ensures
            r@ == self@,
    {
        &self.catalog
    }

    /// The description of the action `action_name`; where there is no such
    /// action, the text that says so, as in the answer to a request for it.
    pub fn describe_action(&self, action_name: &str) -> (r: String)
        ensures
            r@ == describe_text(self@, action_name@),
    {
        self.catalog.describe_action(action_name)
    }

    /// The text that lists the names of the actions.
    pub fn action_list(&self) -> (r: String)
        ensures
            r@ == action_list_text(sorted_names(self@.dom())),
    {
        self.catalog.action_list()
    }

    /// The names of the actions in dictionary order, whatever the order in
    /// which they were registered.
    pub fn action_names(&self) -> (r: Vec<String>)
        ensures
            lists_sorted(texts(r@), self@.dom()),
            texts(r@) == sorted_names(self@.dom()),
    {
        self.catalog.action_names()
    }

    /// Leaves out each value that is written like an earlier one.
    pub fn remove_duplicates(&self, values: Vec<JsonValue>) -> (r: Vec<JsonValue>)
        ensures
            values_view(r@) == without_duplicates(values_view(values@)),
    {
        let ghost all = values_view(values@);
        let mut entries: Vec<(String, JsonValue)> = Vec::new();
        for value in it: values
            invariant
                it.seq() == values@,
                all == values_view(values@),
                entries_view(entries@) == written(all.take(it.index() as int)),
        {
            let ghost before = entries@;
            let ghost k = it.index() as int;
            let text = value.to_string();
            entries.push((text, value));
            proof {
                assert(all.take(k + 1) =~= all.take(k).push(value@));
                assert(entries_view(entries@) =~= entries_view(before).push((text@, value@)));
                assert(written(all.take(k + 1)) =~= written(all.take(k)).push(
                    (json_compact(value@), value@),
                ));
            }
        }
        proof {
            assert(all.take(values@.len() as int) =~= all);
            lemma_first_of_each_written(all);
        }
        first_of_each(entries)
    }

    /// The requests of `message`: the values it holds, each once, in the
    /// order in which they stand.
    pub fn parse(&self, message: &str) -> (r: Vec<JsonValue>)
        ensures
            values_view(r@) == requests_in(message@),
    {
        let text = chars_of(message);
        let open = chars_of("```json");
        let close = chars_of("```");
        proof {
            reveal_strlit("```json");
        }
        let spans = scan(&text, &open, &close);
        let mut results: Vec<JsonValue> = Vec::new();
        if spans.len() > 0 {
            let stray = chars_of("<0xC2><0xA0>");
            let space = chars_of(" ");
            let ghost clean = texts(spans@).map_values(|span: Seq<char>| normalized(span));
            let mut i: usize = 0;
            proof {
                assert(clean.take(0) =~= Seq::<Seq<char>>::empty());
            }
            while i < spans.len()
                invariant
                    i <= spans@.len(),
                    stray@ == stray_space(),
                    space@ == " "@,
                    clean == texts(spans@).map_values(|span: Seq<char>| normalized(span)),
                    values_view(results@) == parse_each(clean.take(i as int)),
                decreases spans@.len() - i,
            {
                let ghost kept = results@;
                let span = chars_of(spans[i].as_str());
                let replaced = replace(&span, &stray, &space);
                let json_str = string_of(&replaced, 0, replaced.len());
                proof {
                    assert(replaced@.subrange(0, replaced@.len() as int) =~= replaced@);
                    let upto = clean.take(i + 1);
                    assert(upto.drop_last() =~= clean.take(i as int));
                    assert(upto.last() == json_str@);
                }
                match JsonValue::parse(json_str.as_str()) {
                    Some(value) => {
                        results.push(value);
                        proof {
                            assert(values_view(results@) =~= values_view(kept).push(value@));
                        }
                    },
                    None => {},
                }
                i += 1;
            }
            proof {
                assert(clean.take(spans@.len() as int) =~= clean);
            }
        } else {
            match JsonValue::parse(message) {
                Some(value) => {
                    results.push(value);
                    proof {
                        assert(values_view(results@) =~= seq![value@]);
                    }
                },
                None => {
                    assert(values_view(results@) =~= Seq::<JsonView>::empty());
                },
            }
        }
        self.remove_duplicates(results)
    }

    /// Answers the requests of `message`.
    ///
    /// Every value of the message that names an action in its field
    /// `action` is answered, in the order in which the values stand: by the
    /// action of that name, which is handed the value and the descriptions of
    /// all actions, or, where no action has that name, by the text that says
    /// so. The result holds every response under its header. It is nothing
    /// exactly where the message holds no value that names an action.
    pub fn invoke(&self, message: &str) -> (r: Option<String>)
        ensures
            match r {
                None => invocations(requests_in(message@)).len() == 0,
                Some(text) => invocations(requests_in(message@)).len() > 0 && self.may_answer(
                    message@,
                    text@,
                ),
            },
    {
        let requests = self.parse(message);
        self.dispatch(&requests)
    }

    /// Answers `requests`, one after the other: those that name an action in
    /// their field `action`, the others are passed over.
    pub fn dispatch(&self, requests: &Vec<JsonValue>) -> (r: Option<String>)
        ensures
            match r {
                None => invocations(values_view(requests@)).len() == 0,
                Some(text) => invocations(values_view(requests@)).len() > 0
                    && self.may_answer_requests(values_view(requests@), text@),
            },
    {
        proof {
            use_type_invariant(self);
            use_type_invariant(&self.catalog);
        }
        let ghost all = values_view(requests@);
        let mut answers: Vec<(String, String)> = Vec::new();
        let mut k: usize = 0;
        proof {
            assert(all.take(0) =~= Seq::<JsonView>::empty());
        }
        while k < requests.len()
            invariant
                k <= requests@.len(),
                all == values_view(requests@),
                self.actions@.len() == self.catalog.pairs().len(),
                distinct_keys(self.catalog.pairs()),
                self.answered(invocations(all.take(k as int)), answers_view(answers@)),
            decreases requests@.len() - k,
        {
            let ghost before = answers_view(answers@);
            let ghost done = invocations(all.take(k as int));
            proof {
                let upto = all.take(k + 1);
                assert(upto.drop_last() =~= all.take(k as int));
                assert(upto.last() == requests@[k as int]@);
            }
            match requests[k].get_str("action") {
                Some(name) => {
                    let response = match self.catalog.position(name) {
                        Some(at) => {
                            proof {
                                lemma_pairs_lookup(self.catalog.pairs(), at as int);
                            }
                            self.actions[at].invoke(&requests[k], &self.catalog)
                        },
                        None => response_action_not_found(name),
                    };
                    let answer = (name.to_string(), response);
                    answers.push(answer);
                    proof {
                        let now = answers_view(answers@);
                        let invs = done.push(requests@[k as int]@);
                        assert(now =~= before.push((name@, response@)));
                        assert forall|i: int| 0 <= i < invs.len() implies {
                            &&& requested(invs[i]) == Some((#[trigger] now[i]).0)
                            &&& self.fits(invs[i], now[i].1)
                        } by {
                            if i < done.len() {
                                assert(now[i] == before[i]);
                                assert(invs[i] == done[i]);
                            }
                        }
                    }
                },
                None => {},
            }
            k += 1;
        }
        proof {
            assert(all.take(requests@.len() as int) =~= all);
        }
        let r = render_responses(&answers);
        assert(self.answered(invocations(all), answers_view(answers@)));
        r
    }
}

/// An action of a registry that holds the actions of the library beside
/// others: one of the library's own, which is known for what it answers, or
/// any other action.
pub enum AlpacaAction {
    /// The action `list_actions`.
    List(AlpacaActionList),
    /// The action `describe_action`.
    Describe(AlpacaActionDescribe),
    /// The action `regex`.
    Regex(AlpacaActionRegex),
    /// An action from elsewhere.
    Other(Box<dyn AlpacaActionTrait>),
}

impl AlpacaActionTrait for AlpacaAction {
    open spec fn has_name(&self, name: Seq<char>) -> bool {
        match self {
            AlpacaAction::List(action) => action.has_name(name),
            AlpacaAction::Describe(action) => action.has_name(name),
            AlpacaAction::Regex(action) => action.has_name(name),
            AlpacaAction::Other(action) => action.has_name(name),
        }
    }

    open spec fn has_description(&self, description: Seq<char>) -> bool {
        match self {
            AlpacaAction::List(action) => action.has_description(description),
            AlpacaAction::Describe(action) => action.has_description(description),
            AlpacaAction::Regex(action) => action.has_description(description),
            AlpacaAction::Other(action) => action.has_description(description),
        }
    }

    open spec fn answers(
        &self,
        object: JsonView,
        context: Map<Seq<char>, Seq<char>>,
        response: Seq<char>,
    ) -> bool {
        match self {
            AlpacaAction::List(action) => action.answers(object, context, response),
            AlpacaAction::Describe(action) => action.answers(object, context, response),
            AlpacaAction::Regex(action) => action.answers(object, context, response),
            AlpacaAction::Other(action) => action.answers(object, context, response),
        }
    }

    fn name(&self) -> (r: &str) {
        match self {
            AlpacaAction::List(action) => action.name(),
            AlpacaAction::Describe(action) => action.name(),
            AlpacaAction::Regex(action) => action.name(),
            AlpacaAction::Other(action) => action.name(),
        }
    }

    fn description(&self) -> (r: &str) {
        match self {
            AlpacaAction::List(action) => action.description(),
            AlpacaAction::Describe(action) => action.description(),
            AlpacaAction::Regex(action) => action.description(),
            AlpacaAction::Other(action) => action.description(),
        }
    }

    fn invoke(&self, object: &JsonValue, context: &AlpacaActionCatalog) -> (r: String) {
        match self {
            AlpacaAction::List(action) => action.invoke(object, context),
            AlpacaAction::Describe(action) => action.invoke(object, context),
            AlpacaAction::Regex(action) => action.invoke(object, context),
            AlpacaAction::Other(action) => action.invoke(object, context),
        }
    }
}

/// The names and descriptions of the actions that a new registry holds.
pub open spec fn builtin_actions() -> Map<Seq<char>, Seq<char>> {
    Map::<Seq<char>, Seq<char>>::empty().insert(
        "list_actions"@,
        crate::action_list::DESCRIPTION@,
    ).insert("describe_action"@, crate::action_describe::DESCRIPTION@).insert(
        crate::action_read_directory::NAME@,
        crate::action_read_directory::DESCRIPTION@,
    ).insert(crate::action_read_file::NAME@, crate::action_read_file::DESCRIPTION@).insert(
        "regex"@,
        crate::action_regex::DESCRIPTION@,
    )
}

/// No two of the names of the actions of a new registry are the same.
pub proof fn lemma_builtin_names_differ()
    ensures
        "list_actions"@ != "describe_action"@,
        "list_actions"@ != crate::action_read_directory::NAME@,
        "list_actions"@ != crate::action_read_file::NAME@,
        "list_actions"@ != "regex"@,
        "describe_action"@ != crate::action_read_directory::NAME@,
        "describe_action"@ != crate::action_read_file::NAME@,
        "describe_action"@ != "regex"@,
        crate::action_read_directory::NAME@ != crate::action_read_file::NAME@,
        crate::action_read_directory::NAME@ != "regex"@,
        crate::action_read_file::NAME@ != "regex"@,
{
    reveal_strlit("list_actions");
    reveal_strlit("describe_action");
    reveal_strlit("read_directory");
    reveal_strlit("read_file");
    reveal_strlit("regex");
    assert("list_actions"@.len() == 12);
    assert("describe_action"@.len() == 15);
    assert(crate::action_read_directory::NAME@.len() == 14);
    assert(crate::action_read_file::NAME@.len() == 9);
    assert("regex"@.len() == 5);
}

/// The names of the actions of a new registry, in dictionary order.
pub open spec fn builtin_names() -> Seq<Seq<char>> {
    seq![
        "describe_action"@,
        "list_actions"@,
        crate::action_read_directory::NAME@,
        crate::action_read_file::NAME@,
        "regex"@,
    ]
}

/// A new registry lists the names of its five actions in dictionary order.
pub proof fn lemma_builtin_names_sorted()
    ensures
        sorted_names(builtin_actions().dom()) == builtin_names(),
{
    let names = builtin_names();
    lemma_builtin_names_differ();
    assert(strictly_sorted(names)) by {
        reveal_strlit("list_actions");
        reveal_strlit("describe_action");
        reveal_strlit("read_directory");
        reveal_strlit("read_file");
        reveal_strlit("regex");
        reveal_with_fuel(lex_lt, 8);
        assert(lex_lt(names[0], names[1]));
        assert(lex_lt(names[1], names[2]));
        assert(lex_lt(names[2], names[3]));
        assert(lex_lt(names[3], names[4]));
        lemma_lex_lt_transitive(names[0], names[1], names[2]);
        lemma_lex_lt_transitive(names[0], names[2], names[3]);
        lemma_lex_lt_transitive(names[0], names[3], names[4]);
        lemma_lex_lt_transitive(names[1], names[2], names[3]);
        lemma_lex_lt_transitive(names[1], names[3], names[4]);
        lemma_lex_lt_transitive(names[2], names[3], names[4]);
    }
    assert(names.to_set() =~= builtin_actions().dom()) by {
        assert forall|x: Seq<char>| names.to_set().contains(x) <==> builtin_actions().dom().contains(
            x,
        ) by {
            if names.contains(x) {
                let i = choose|i: int| 0 <= i < names.len() && names[i] == x;
            }
            if builtin_actions().dom().contains(x) {
                assert(x == names[0] || x == names[1] || x == names[2] || x == names[3] || x
                    == names[4]);
            }
        }
    }
    lemma_sorted_names(names, builtin_actions().dom());
}

impl AlpacaActions<AlpacaAction> {
    /// A registry with the actions of the library: `list_actions`,
    /// `describe_action`, `read_directory`, `read_file` and `regex`.
    ///
    /// The two actions that read the file system come from the caller and
    /// are entered under the names and descriptions that the library has for
    /// them. The other three answer as the library says.
    pub fn new(read_directory: Box<dyn AlpacaActionTrait>, read_file: Box<dyn AlpacaActionTrait>) -> (r:
        Self)
        ensures
            r@ == builtin_actions(),
            sorted_names(r@.dom()) == builtin_names(),
            r.action("list_actions"@) == AlpacaAction::List(AlpacaActionList {}),
            r.action("describe_action"@) == AlpacaAction::Describe(AlpacaActionDescribe {}),
            r.action("regex"@) == AlpacaAction::Regex(AlpacaActionRegex {}),
            r.action(crate::action_read_directory::NAME@) == AlpacaAction::Other(read_directory),
            r.action(crate::action_read_file::NAME@) == AlpacaAction::Other(read_file),
            forall|object: JsonView, context: Map<Seq<char>, Seq<char>>, response: Seq<char>|
                #[trigger] r.action("list_actions"@).answers(object, context, response)
                    <==> response == crate::action_list::list_response_text(context),
            forall|object: JsonView, context: Map<Seq<char>, Seq<char>>, response: Seq<char>|
                #[trigger] r.action("describe_action"@).answers(object, context, response)
                    <==> response == crate::action_describe::describe_response_text(
                    object,
                    context,
                ),
            forall|object: JsonView, context: Map<Seq<char>, Seq<char>>, response: Seq<char>|
                #[trigger] r.action("regex"@).answers(object, context, response) <==> response
                    == crate::action_regex::regex_response_text(object),
    {
        proof {
            lemma_builtin_names_differ();
            lemma_builtin_names_sorted();
        }
        let mut actions = Self::empty();
        let list = AlpacaActionList::new();
        let name = list.name().to_string();
        let description = list.description().to_string();
        actions.register(name.as_str(), description.as_str(), AlpacaAction::List(list));
        let describe = AlpacaActionDescribe::new();
        let name = describe.name().to_string();
        let description = describe.description().to_string();
        actions.register(name.as_str(), description.as_str(), AlpacaAction::Describe(describe));
        actions.register(
            crate::action_read_directory::NAME,
            crate::action_read_directory::DESCRIPTION,
            AlpacaAction::Other(read_directory),
        );
        actions.register(
            crate::action_read_file::NAME,
            crate::action_read_file::DESCRIPTION,
            AlpacaAction::Other(read_file),
        );
        let regex = AlpacaActionRegex::new();
        let name = regex.name().to_string();
        let description = regex.description().to_string();
        actions.register(name.as_str(), description.as_str(), AlpacaAction::Regex(regex));
        actions
    }

    /// Renders a value as a fenced block of indented JSON.
    pub fn blockify(object: &JsonValue) -> (r: String)
        ensures
            r@ == block_text(object@),
    {
        blockify(object)
    }
}

} // verus!
