//! What holds of the engine: of the requests it finds in a message, of the
//! answers it gives, and of the names it lists.

use crate::action::{
    action_response_text, candidates_in, closing_marker, describe_text, invocations, json_marker,
    lemma_sorted_names, lists_sorted, normalized, not_found_phrase, not_found_text, rendered,
    requested, requests_in, seen_before, sorted_names, without_duplicates, AlpacaActionTrait,
    AlpacaActions, ACTION_NOT_FOUND,
};
use crate::fence::fenced_spans;
use crate::json::{
    json_compact, json_parse, lemma_parse_each_in_order, parse_each, parsed_places, JsonView,
};
use crate::selection::{kept_places, lemma_kept_places, lemma_kept_places_agree};
use crate::text::{contains, lemma_contains_part, lemma_contains_transitive, occurs_at};
use vstd::prelude::*;

verus! {

/// A message that holds no JSON block and is itself no JSON document holds
/// no request: `invoke` returns nothing for it.
pub proof fn lemma_message_without_values(message: Seq<char>)
    requires
        fenced_spans(message, json_marker(), closing_marker(), 0).len() == 0,
        json_parse(message) is None,
    ensures
        requests_in(message).len() == 0,
        invocations(requests_in(message)).len() == 0,
{
    assert(candidates_in(message).len() == 0);
}

/// Where exactly one of the requests names an action, and the action is
/// registered, the answer is one response: that of the action to the
/// request, under the header that names the action.
pub proof fn lemma_single_request<A: AlpacaActionTrait>(
    actions: AlpacaActions<A>,
    requests: Seq<JsonView>,
    request: JsonView,
    name: Seq<char>,
    text: Seq<char>,
)
    requires
        invocations(requests) == seq![request],
        requested(request) == Some(name),
        actions@.contains_key(name),
        actions.may_answer_requests(requests, text),
    ensures
        exists|response: Seq<char>|
            #[trigger] actions.action(name).answers(request, actions@, response) && text
                == action_response_text(name, response),
{
    let invs = invocations(requests);
    let answers = choose|answers: Seq<(Seq<char>, Seq<char>)>|
        #[trigger] actions.answered(invs, answers) && text == rendered(answers);
    assert(invs[0] == request);
    assert(answers[0].0 == name);
    assert(actions.fits(invs[0], answers[0].1));
    let parts = answers.map_values(
        |a: (Seq<char>, Seq<char>)| action_response_text(a.0, a.1),
    );
    assert(parts.len() == 1);
    assert(parts[0] == action_response_text(name, answers[0].1));
    assert(actions.action(name).answers(request, actions@, answers[0].1));
}

/// Where a message holds exactly one request that names an action, and the
/// action is registered, the answer to the message is one response: that of
/// the action to the request, under the header that names the action.
pub proof fn lemma_single_invocation<A: AlpacaActionTrait>(
    actions: AlpacaActions<A>,
    message: Seq<char>,
    request: JsonView,
    name: Seq<char>,
    text: Seq<char>,
)
    requires
        invocations(requests_in(message)) == seq![request],
        requested(request) == Some(name),
        actions@.contains_key(name),
        actions.may_answer(message, text),
    ensures
        exists|response: Seq<char>|
            #[trigger] actions.action(name).answers(request, actions@, response) && text
                == action_response_text(name, response),
{
    lemma_single_request(actions, requests_in(message), request, name, text);
}

/// What duplicate removal keeps: values of the list, no two written alike,
/// and for every value of the list one that is written like it.
pub proof fn lemma_without_duplicates(values: Seq<JsonView>)
    ensures
        forall|i: int|
            0 <= i < without_duplicates(values).len() ==> values.contains(
                #[trigger] without_duplicates(values)[i],
            ),
        forall|i: int, j: int|
            0 <= i < j < without_duplicates(values).len() ==> json_compact(
                without_duplicates(values)[i],
            ) != json_compact(without_duplicates(values)[j]),
        forall|k: int|
            0 <= k < values.len() ==> exists|i: int|
                0 <= i < without_duplicates(values).len() && json_compact(
                    without_duplicates(values)[i],
                ) == json_compact(#[trigger] values[k]),
    decreases values.len(),
{
    if values.len() > 0 {
        let front = values.drop_last();
        let last = values.last();
        let head = without_duplicates(front);
        let kept = without_duplicates(values);
        lemma_without_duplicates(front);
        assert forall|i: int| 0 <= i < kept.len() implies values.contains(#[trigger] kept[i]) by {
            if i < head.len() {
                assert(kept[i] == head[i]);
                assert(front.contains(head[i]));
                let k = choose|k: int| 0 <= k < front.len() && front[k] == head[i];
                assert(values[k] == kept[i]);
            } else {
                assert(values[values.len() - 1] == kept[i]);
            }
        }
        assert forall|i: int, j: int| 0 <= i < j < kept.len() implies json_compact(kept[i])
            != json_compact(kept[j]) by {
            if j < head.len() {
                assert(kept[i] == head[i] && kept[j] == head[j]);
            } else {
                assert(kept[j] == last);
                assert(kept[i] == head[i]);
                assert(front.contains(head[i]));
                let k = choose|k: int| 0 <= k < front.len() && front[k] == head[i];
                assert(values[k] == head[i]);
                assert(!seen_before(values, values.len() - 1));
            }
        }
        assert forall|k: int| 0 <= k < values.len() implies exists|i: int|
            0 <= i < kept.len() && json_compact(kept[i]) == json_compact(#[trigger] values[k]) by {
            if k < front.len() {
                assert(front[k] == values[k]);
                let i = choose|i: int|
                    0 <= i < head.len() && json_compact(head[i]) == json_compact(front[k]);
                assert(kept[i] == head[i]);
            } else if seen_before(values, values.len() - 1) {
                let at = values.len() - 1;
                let j = choose|j: int|
                    0 <= j < at && json_compact(values[j]) == json_compact(values[at]);
                assert(front[j] == values[j]);
                let i = choose|i: int|
                    0 <= i < head.len() && json_compact(head[i]) == json_compact(front[j]);
                assert(kept[i] == head[i]);
            } else {
                assert(kept[head.len() as int] == last);
            }
        }
    }
}

/// A value that stands in the list already is left out: of two identical
/// requests of one message only the first is answered.
pub proof fn lemma_repeated_value_is_dropped(values: Seq<JsonView>, value: JsonView)
    requires
        values.contains(value),
    ensures
        without_duplicates(values.push(value)) == without_duplicates(values),
{
    let all = values.push(value);
    let k = choose|k: int| 0 <= k < values.len() && values[k] == value;
    assert(all[k] == all[all.len() - 1]);
    assert(seen_before(all, all.len() - 1));
    assert(all.drop_last() =~= values);
}

/// Every answer stands in the text that is rendered of the answers: its
/// response, under its header.
pub proof fn lemma_rendered_contains(answers: Seq<(Seq<char>, Seq<char>)>, at: int)
    requires
        0 <= at < answers.len(),
    ensures
        contains(rendered(answers), action_response_text(answers[at].0, answers[at].1)),
        contains(rendered(answers), answers[at].1),
    decreases answers.len(),
{
    let parts = answers.map_values(
        |a: (Seq<char>, Seq<char>)| action_response_text(a.0, a.1),
    );
    let part = action_response_text(answers[at].0, answers[at].1);
    assert(parts[at] == part);
    if answers.len() == 1 {
        lemma_contains_part(Seq::empty(), part, Seq::empty());
        assert(Seq::<char>::empty() + part + Seq::<char>::empty() =~= part);
    } else {
        let front = answers.drop_last();
        let front_parts = front.map_values(
            |a: (Seq<char>, Seq<char>)| action_response_text(a.0, a.1),
        );
        assert(parts.drop_last() =~= front_parts);
        assert(rendered(answers) == rendered(front) + "\n"@ + parts.last());
        if at == answers.len() - 1 {
            lemma_contains_part(rendered(front) + "\n"@, part, Seq::empty());
            assert(rendered(front) + "\n"@ + part + Seq::<char>::empty() =~= rendered(answers));
        } else {
            lemma_rendered_contains(front, at);
            lemma_contains_part(Seq::empty(), rendered(front), "\n"@ + parts.last());
            assert(Seq::<char>::empty() + rendered(front) + ("\n"@ + parts.last())
                =~= rendered(answers));
            lemma_contains_transitive(rendered(answers), rendered(front), part);
        }
    }
    lemma_contains_part("\n# `"@ + answers[at].0 + "` Action Response\n\n"@, answers[at].1, "\n"@);
    lemma_contains_transitive(rendered(answers), part, answers[at].1);
}

/// The end of the sentence that says that an action was not found holds
/// the words "not found".
proof fn lemma_phrase_says_not_found()
    ensures
        contains("' not found."@, "not found"@),
{
    reveal_strlit("' not found.");
    reveal_strlit("not found");
    assert("' not found."@.subrange(2, 11) =~= "not found"@);
    assert(occurs_at("' not found."@, "not found"@, 2));
}

/// The hint names the action that lists the actions.
proof fn lemma_hint_names_list_actions()
    ensures
        contains(ACTION_NOT_FOUND@, "list_actions"@),
{
    reveal_strlit(
        "\nUse the `list_actions` action to get a list of all of the available actions.\nHere is an example of how to invoke it:\n```json\n{\n    \"action\": \"list_actions\"\n}\n```\n",
    );
    reveal_strlit("list_actions");
    let hint = ACTION_NOT_FOUND@;
    let word = "list_actions"@;
    assert(hint.subrange(10, 22) =~= word);
    assert(occurs_at(hint, word, 10));
}

/// The text that says that an action was not found holds the sentence that
/// says so, with the words "not found", and the hint, which names the
/// action that lists the actions.
pub proof fn lemma_not_found_text(action: Seq<char>)
    ensures
        contains(not_found_text(action), not_found_phrase(action)),
        contains(not_found_text(action), "not found"@),
        contains(not_found_text(action), ACTION_NOT_FOUND@),
        contains(not_found_text(action), "list_actions"@),
{
    let whole = not_found_text(action);
    lemma_contains_part("## Error\n\n"@, not_found_phrase(action), "\n"@ + ACTION_NOT_FOUND@);
    assert("## Error\n\n"@ + not_found_phrase(action) + ("\n"@ + ACTION_NOT_FOUND@) =~= whole);
    lemma_contains_part(
        "## Error\n\n"@ + not_found_phrase(action) + "\n"@,
        ACTION_NOT_FOUND@,
        Seq::empty(),
    );
    assert("## Error\n\n"@ + not_found_phrase(action) + "\n"@ + ACTION_NOT_FOUND@
        + Seq::<char>::empty() =~= whole);
    lemma_phrase_says_not_found();
    lemma_contains_part("Action '"@ + action, "' not found."@, Seq::empty());
    assert("Action '"@ + action + "' not found."@ + Seq::<char>::empty() =~= not_found_phrase(
        action,
    ));
    lemma_contains_transitive(not_found_phrase(action), "' not found."@, "not found"@);
    lemma_contains_transitive(whole, not_found_phrase(action), "not found"@);
    lemma_hint_names_list_actions();
    lemma_contains_transitive(whole, ACTION_NOT_FOUND@, "list_actions"@);
}

/// A request for an action that is not registered is answered: the answer
/// to the message holds, under the header that names the action asked for,
/// that the action was not found, and the hint.
pub proof fn lemma_unregistered_action_is_answered<A: AlpacaActionTrait>(
    actions: AlpacaActions<A>,
    message: Seq<char>,
    text: Seq<char>,
    at: int,
)
    requires
        actions.may_answer(message, text),
        0 <= at < invocations(requests_in(message)).len(),
        !actions@.contains_key(requested(invocations(requests_in(message))[at]).unwrap()),
    ensures
        contains(
            text,
            action_response_text(
                requested(invocations(requests_in(message))[at]).unwrap(),
                not_found_text(requested(invocations(requests_in(message))[at]).unwrap()),
            ),
        ),
        contains(text, "not found"@),
        contains(text, ACTION_NOT_FOUND@),
{
    let invs = invocations(requests_in(message));
    let name = requested(invs[at]).unwrap();
    let answers = choose|answers: Seq<(Seq<char>, Seq<char>)>|
        #[trigger] actions.answered(invs, answers) && text == rendered(answers);
    assert(answers[at].0 == name);
    assert(actions.fits(invs[at], answers[at].1));
    lemma_rendered_contains(answers, at);
    lemma_not_found_text(name);
    lemma_contains_transitive(text, not_found_text(name), "not found"@);
    lemma_contains_transitive(text, not_found_text(name), ACTION_NOT_FOUND@);
}

/// For a name that is not registered `describe_action` returns what a
/// request for that name is answered with.
pub proof fn lemma_describe_unregistered<A: AlpacaActionTrait>(
    actions: AlpacaActions<A>,
    request: JsonView,
    name: Seq<char>,
)
    requires
        requested(request) == Some(name),
        !actions@.contains_key(name),
    ensures
        describe_text(actions@, name) == not_found_text(name),
        actions.fits(request, describe_text(actions@, name)),
{
}

/// For a registered name `describe_action` returns the description that
/// the action was registered with: a text that is not empty, where the
/// description is not.
pub proof fn lemma_describe_registered(
    catalog: Map<Seq<char>, Seq<char>>,
    name: Seq<char>,
)
    requires
        catalog.contains_key(name),
        catalog[name].len() > 0,
    ensures
        describe_text(catalog, name) == catalog[name],
        describe_text(catalog, name).len() > 0,
{
}

/// The list of names does not depend on the order of registration: two
/// registries that hold actions of the same names list them alike, and two
/// actions registered in either order give the same registry.
pub proof fn lemma_names_whatever_the_order(
    first: Seq<Seq<char>>,
    second: Seq<Seq<char>>,
    names: Set<Seq<char>>,
)
    requires
        lists_sorted(first, names),
        lists_sorted(second, names),
    ensures
        first == second,
        first == sorted_names(names),
{
    lemma_sorted_names(first, names);
    lemma_sorted_names(second, names);
}

/// Registering two actions of different names in either order gives the
/// same registry.
pub proof fn lemma_registration_order(
    catalog: Map<Seq<char>, Seq<char>>,
    one: Seq<char>,
    one_description: Seq<char>,
    other: Seq<char>,
    other_description: Seq<char>,
)
    requires
        one != other,
    ensures
        catalog.insert(one, one_description).insert(other, other_description) == catalog.insert(
            other,
            other_description,
        ).insert(one, one_description),
{
    assert(catalog.insert(one, one_description).insert(other, other_description)
        =~= catalog.insert(other, other_description).insert(one, one_description));
}

/// The places of those values that are not written like an earlier one,
/// from left to right.
pub open spec fn first_places(values: Seq<JsonView>) -> Seq<int> {
    kept_places(values.len(), |i: int| !seen_before(values, i))
}

/// Duplicate removal keeps the order of the values: what it keeps are the
/// values that are not written like an earlier one, from left to right.
pub proof fn lemma_without_duplicates_in_order(values: Seq<JsonView>)
    ensures
        without_duplicates(values).len() == first_places(values).len(),
        forall|i: int|
            0 <= i < without_duplicates(values).len() ==> values[first_places(values)[i]]
                == #[trigger] without_duplicates(values)[i],
        forall|i: int, j: int|
            0 <= i < j < first_places(values).len() ==> first_places(values)[i] < first_places(
                values,
            )[j],
        forall|i: int|
            0 <= i < first_places(values).len() ==> 0 <= (#[trigger] first_places(values)[i])
                < values.len(),
    decreases values.len(),
{
    lemma_kept_places(values.len(), |i: int| !seen_before(values, i));
    if values.len() > 0 {
        let front = values.drop_last();
        let n = values.len();
        let keep = |i: int| !seen_before(values, i);
        let keep_front = |i: int| !seen_before(front, i);
        lemma_without_duplicates_in_order(front);
        assert forall|k: int| 0 <= k < n - 1 implies (#[trigger] keep(k)) == keep_front(k) by {
            if seen_before(values, k) {
                let j = choose|j: int|
                    0 <= j < k && json_compact(values[j]) == json_compact(values[k]);
                assert(json_compact(front[j]) == json_compact(front[k]));
            }
            if seen_before(front, k) {
                let j = choose|j: int|
                    0 <= j < k && json_compact(front[j]) == json_compact(front[k]);
                assert(json_compact(values[j]) == json_compact(values[k]));
            }
        }
        lemma_kept_places_agree((n - 1) as nat, keep, keep_front);
        lemma_kept_places((n - 1) as nat, keep);
        let head = kept_places((n - 1) as nat, keep);
        assert(head == first_places(front));
        assert forall|i: int| 0 <= i < without_duplicates(values).len() implies values[first_places(
            values,
        )[i]] == #[trigger] without_duplicates(values)[i] by {
            if i < head.len() {
                assert(first_places(values)[i] == head[i]);
                assert(without_duplicates(values)[i] == without_duplicates(front)[i]);
                assert(front[head[i]] == values[head[i]]);
            }
        }
    }
}

/// The places of those requests that name an action, from left to right.
pub open spec fn invocation_places(requests: Seq<JsonView>) -> Seq<int> {
    kept_places(requests.len(), |i: int| requested(requests[i]) is Some)
}

/// The requests that are answered are answered in their order: they are
/// the requests that name an action, from left to right.
pub proof fn lemma_invocations_in_order(requests: Seq<JsonView>)
    ensures
        invocations(requests).len() == invocation_places(requests).len(),
        forall|i: int|
            0 <= i < invocations(requests).len() ==> requests[invocation_places(requests)[i]]
                == #[trigger] invocations(requests)[i],
        forall|i: int, j: int|
            0 <= i < j < invocation_places(requests).len() ==> invocation_places(requests)[i]
                < invocation_places(requests)[j],
        forall|i: int|
            0 <= i < invocation_places(requests).len() ==> 0 <= (#[trigger] invocation_places(
                requests,
            )[i]) < requests.len(),
    decreases requests.len(),
{
    lemma_kept_places(requests.len(), |i: int| requested(requests[i]) is Some);
    if requests.len() > 0 {
        let front = requests.drop_last();
        let n = requests.len();
        let keep = |i: int| requested(requests[i]) is Some;
        let keep_front = |i: int| requested(front[i]) is Some;
        lemma_invocations_in_order(front);
        assert forall|k: int| 0 <= k < n - 1 implies (#[trigger] keep(k)) == keep_front(k) by {
            assert(front[k] == requests[k]);
        }
        lemma_kept_places_agree((n - 1) as nat, keep, keep_front);
        lemma_kept_places((n - 1) as nat, keep);
        let head = kept_places((n - 1) as nat, keep);
        assert(head == invocation_places(front));
        assert forall|i: int| 0 <= i < invocations(requests).len() implies requests[invocation_places(
            requests,
        )[i]] == #[trigger] invocations(requests)[i] by {
            if i < head.len() {
                assert(invocation_places(requests)[i] == head[i]);
                assert(invocations(requests)[i] == invocations(front)[i]);
                assert(front[head[i]] == requests[head[i]]);
            }
        }
    }
}

/// The responses stand in the rendered text in the order of the answers:
/// the text of all answers is the text of the first `k`, a line break, and
/// the text of the rest.
pub proof fn lemma_rendered_in_order(answers: Seq<(Seq<char>, Seq<char>)>, k: int)
    requires
        0 < k < answers.len(),
    ensures
        rendered(answers) == rendered(answers.take(k)) + "\n"@ + rendered(answers.skip(k)),
    decreases answers.len(),
{
    let render = |a: (Seq<char>, Seq<char>)| action_response_text(a.0, a.1);
    let parts = answers.map_values(render);
    let front = answers.drop_last();
    assert(parts.drop_last() =~= front.map_values(render));
    assert(rendered(answers) == rendered(front) + "\n"@ + parts.last());
    if k == answers.len() - 1 {
        assert(answers.take(k) =~= front);
        assert(answers.skip(k).map_values(render) =~= seq![parts.last()]);
    } else {
        lemma_rendered_in_order(front, k);
        let rest = answers.skip(k);
        assert(front.take(k) =~= answers.take(k));
        assert(rest.drop_last() =~= front.skip(k));
        assert(rest.map_values(render).drop_last() =~= rest.drop_last().map_values(render));
        assert(rest.map_values(render).last() == parts.last());
        assert(rendered(rest) == rendered(front.skip(k)) + "\n"@ + parts.last());
        assert(rendered(answers.take(k)) + "\n"@ + rendered(front.skip(k)) + "\n"@ + parts.last()
            =~= rendered(answers.take(k)) + "\n"@ + (rendered(front.skip(k)) + "\n"@
            + parts.last()));
    }
}

/// The JSON blocks of a message, each with stray non-breaking spaces
/// replaced, in the order in which they stand.
pub open spec fn json_blocks(message: Seq<char>) -> Seq<Seq<char>> {
    fenced_spans(message, json_marker(), closing_marker(), 0).map_values(
        |span: Seq<char>| normalized(span),
    )
}

/// The place, among the JSON blocks of `message`, of the block that holds
/// the request that is answered at place `at`.
pub open spec fn block_of(message: Seq<char>, at: int) -> int {
    let values = parse_each(json_blocks(message));
    let requests = without_duplicates(values);
    parsed_places(json_blocks(message))[first_places(values)[invocation_places(requests)[at]]]
}

/// The answers follow the text: in a message that holds JSON blocks, each
/// request that is answered is what one of the blocks holds, and a request
/// that is answered later stands in a later block.
pub proof fn lemma_answers_follow_the_text(message: Seq<char>)
    requires
        json_blocks(message).len() > 0,
    ensures
        forall|at: int|
            0 <= at < invocations(requests_in(message)).len() ==> {
                &&& 0 <= (#[trigger] block_of(message, at)) < json_blocks(message).len()
                &&& json_parse(json_blocks(message)[block_of(message, at)]) == Some(
                    invocations(requests_in(message))[at],
                )
            },
        forall|at: int, later: int|
            0 <= at < later < invocations(requests_in(message)).len() ==> block_of(message, at)
                < block_of(message, later),
{
    let blocks = json_blocks(message);
    let values = parse_each(blocks);
    let requests = without_duplicates(values);
    assert(requests == requests_in(message));
    let answered = invocations(requests);
    let in_requests = invocation_places(requests);
    let in_values = first_places(values);
    let in_blocks = parsed_places(blocks);
    lemma_parse_each_in_order(blocks);
    lemma_without_duplicates_in_order(values);
    lemma_invocations_in_order(requests);
    assert forall|at: int| 0 <= at < answered.len() implies {
        &&& 0 <= (#[trigger] block_of(message, at)) < blocks.len()
        &&& json_parse(blocks[block_of(message, at)]) == Some(answered[at])
    } by {
        let r = in_requests[at];
        assert(requests[r] == answered[at]);
        let v = in_values[r];
        assert(values[v] == requests[r]);
        let b = in_blocks[v];
        assert(json_parse(blocks[b]) == Some(values[v]));
    }
    assert forall|at: int, later: int| 0 <= at < later < answered.len() implies block_of(
        message,
        at,
    ) < block_of(message, later) by {
        let r1 = in_requests[at];
        let r2 = in_requests[later];
        assert(r1 < r2);
        assert(0 <= r1 < requests.len() && 0 <= r2 < requests.len());
        let v1 = in_values[r1];
        let v2 = in_values[r2];
        assert(v1 < v2);
        assert(0 <= v1 < values.len() && 0 <= v2 < values.len());
        assert(in_blocks[v1] < in_blocks[v2]);
    }
}

} // verus!
