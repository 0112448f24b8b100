//! Spans of a text that stand between an opening and a closing marker.

use crate::text::{
    find, find_from, first_at, occurs_at, string_of, texts, trim, trim_bounds,
};
use vstd::prelude::*;

verus! {

/// What `find_from` names is a place where the pattern stands, not before `from`.
pub proof fn lemma_find_from_bounds(text: Seq<char>, pat: Seq<char>, from: int)
    ensures
        find_from(text, pat, from) matches Some(at) ==> first_at(text, pat, from, at),
{
}

/// The fenced spans of `text` from index `from` on, in the order in which
/// they stand. A span begins behind the leftmost `open` and ends before the
/// leftmost `close` behind that; it is given without the white space around
/// it. The search goes on behind that `close`, so spans never overlap. An
/// `open` that no `close` follows ends the search.
pub open spec fn fenced_spans(text: Seq<char>, open: Seq<char>, close: Seq<char>, from: int) -> Seq<
    Seq<char>,
>
    decreases text.len() - from,
    when from >= 0 && open.len() > 0
    via fenced_spans_decreases
{
    match find_from(text, open, from) {
        None => Seq::empty(),
        Some(start) => match find_from(text, close, start + open.len()) {
            None => Seq::empty(),
            Some(end) => seq![trim(text.subrange(start + open.len(), end))] + fenced_spans(
                text,
                open,
                close,
                end + close.len(),
            ),
        },
    }
}

#[via_fn]
proof fn fenced_spans_decreases(text: Seq<char>, open: Seq<char>, close: Seq<char>, from: int) {
    lemma_find_from_bounds(text, open, from);
    if let Some(start) = find_from(text, open, from) {
        lemma_find_from_bounds(text, close, start + open.len());
    }
}

/// Where the fenced spans of `text` stand: for each span, the place behind
/// its opening marker and the place of its closing marker.
pub open spec fn span_bounds(text: Seq<char>, open: Seq<char>, close: Seq<char>, from: int) -> Seq<
    (int, int),
>
    decreases text.len() - from,
    when from >= 0 && open.len() > 0
    via span_bounds_decreases
{
    match find_from(text, open, from) {
        None => Seq::empty(),
        Some(start) => match find_from(text, close, start + open.len()) {
            None => Seq::empty(),
            Some(end) => seq![(start + open.len(), end)] + span_bounds(
                text,
                open,
                close,
                end + close.len(),
            ),
        },
    }
}

#[via_fn]
proof fn span_bounds_decreases(text: Seq<char>, open: Seq<char>, close: Seq<char>, from: int) {
    lemma_find_from_bounds(text, open, from);
    if let Some(start) = find_from(text, open, from) {
        lemma_find_from_bounds(text, close, start + open.len());
    }
}

/// The fenced spans come in the order in which they stand in the text, and
/// no two overlap: each span is what stands between an opening marker and
/// the first closing marker behind it, without the white space around it,
/// and each opening marker stands behind the closing marker of the span
/// before.
pub proof fn lemma_spans_in_order(text: Seq<char>, open: Seq<char>, close: Seq<char>, from: int)
    requires
        from >= 0,
        open.len() > 0,
    ensures
        span_bounds(text, open, close, from).len() == fenced_spans(text, open, close, from).len(),
        forall|i: int|
            0 <= i < span_bounds(text, open, close, from).len() ==> {
                let (inner, end) = #[trigger] span_bounds(text, open, close, from)[i];
                &&& from + open.len() <= inner <= end
                &&& end + close.len() <= text.len()
                &&& occurs_at(text, open, inner - open.len())
                &&& find_from(text, close, inner) == Some(end)
                &&& fenced_spans(text, open, close, from)[i] == trim(text.subrange(inner, end))
            },
        forall|i: int, j: int|
            0 <= i < j < span_bounds(text, open, close, from).len() ==> span_bounds(
                text,
                open,
                close,
                from,
            )[i].1 + close.len() + open.len() <= span_bounds(text, open, close, from)[j].0,
    decreases text.len() - from,
{
    lemma_find_from_bounds(text, open, from);
    if let Some(start) = find_from(text, open, from) {
        let inner = start + open.len();
        lemma_find_from_bounds(text, close, inner);
        if let Some(end) = find_from(text, close, inner) {
            let next = end + close.len();
            lemma_spans_in_order(text, open, close, next);
            let bounds = span_bounds(text, open, close, from);
            let spans = fenced_spans(text, open, close, from);
            let tail_bounds = span_bounds(text, open, close, next);
            let tail_spans = fenced_spans(text, open, close, next);
            assert(bounds == seq![(inner, end)] + tail_bounds);
            assert(spans == seq![trim(text.subrange(inner, end))] + tail_spans);
            assert forall|i: int| 0 <= i < bounds.len() implies {
                let (a, b) = #[trigger] bounds[i];
                &&& from + open.len() <= a <= b
                &&& b + close.len() <= text.len()
                &&& occurs_at(text, open, a - open.len())
                &&& find_from(text, close, a) == Some(b)
                &&& spans[i] == trim(text.subrange(a, b))
            } by {
                if i > 0 {
                    assert(bounds[i] == tail_bounds[i - 1]);
                    assert(spans[i] == tail_spans[i - 1]);
                }
            }
            assert forall|i: int, j: int| 0 <= i < j < bounds.len() implies bounds[i].1
                + close.len() + open.len() <= bounds[j].0 by {
                assert(bounds[j] == tail_bounds[j - 1]);
                if i > 0 {
                    assert(bounds[i] == tail_bounds[i - 1]);
                }
            }
        }
    }
}

/// The fenced spans of `text`, as strings.
pub fn scan(text: &Vec<char>, open: &Vec<char>, close: &Vec<char>) -> (r: Vec<String>)
    requires
        open.len() > 0,
    ensures
        texts(r@) == fenced_spans(text@, open@, close@, 0),
{
    let mut out: Vec<String> = Vec::new();
    let mut from: usize = 0;
    loop
        invariant
            open.len() > 0,
            fenced_spans(text@, open@, close@, 0) == texts(out@) + fenced_spans(
                text@,
                open@,
                close@,
                from as int,
            ),
        ensures
            texts(out@) == fenced_spans(text@, open@, close@, 0),
        decreases text.len() - from,
    {
        let ghost rest = fenced_spans(text@, open@, close@, from as int);
        proof {
            lemma_find_from_bounds(text@, open@, from as int);
        }
        match find(text, open, from) {
            None => {
                assert(texts(out@) + rest =~= texts(out@));
                break ;
            },
            Some(start) => {
                let inner = start + open.len();
                proof {
                    lemma_find_from_bounds(text@, close@, inner as int);
                }
                match find(text, close, inner) {
                    None => {
                        assert(texts(out@) + rest =~= texts(out@));
                        break ;
                    },
                    Some(end) => {
                        let (a, b) = trim_bounds(text, inner, end);
                        let span = string_of(text, a, b);
                        let ghost before = out@;
                        out.push(span);
                        proof {
                            let tail = fenced_spans(text@, open@, close@, end + close.len());
                            assert(rest == seq![span@] + tail);
                            assert(texts(out@) =~= texts(before).push(span@));
                            assert(texts(before) + (seq![span@] + tail) =~= texts(out@) + tail);
                        }
                        from = end + close.len();
                    },
                }
            },
        }
    }
    out
}

} // verus!
