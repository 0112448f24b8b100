//! Text primitives over sequences of characters: searching, trimming,
//! replacing, ordering and building strings.

use vstd::prelude::*;

verus! {

/// `String::push` of std: appends the character to the end of the string.
pub assume_specification[ std::string::String::push ](s: &mut std::string::String, c: char)
    ensures
        final(s)@ == old(s)@.push(c),
;

/// `==` on `str` of std: two string slices are equal exactly when they hold
/// the same characters.
pub assume_specification[ <str as PartialEq>::eq ](a: &str, b: &str) -> (r: bool)
    ensures
        r == (a@ == b@),
;

/// `pat` stands in `text` at index `at`.
pub open spec fn occurs_at(text: Seq<char>, pat: Seq<char>, at: int) -> bool {
    &&& 0 <= at
    &&& at + pat.len() <= text.len()
    &&& text.subrange(at, at + pat.len()) == pat
}

/// `at` is the leftmost index not before `from` at which `pat` stands in `text`.
pub open spec fn first_at(text: Seq<char>, pat: Seq<char>, from: int, at: int) -> bool {
    &&& from <= at
    &&& occurs_at(text, pat, at)
    &&& forall|j: int| from <= j < at ==> !occurs_at(text, pat, j)
}

/// The leftmost index not before `from` at which `pat` stands in `text`, if any.
pub open spec fn find_from(text: Seq<char>, pat: Seq<char>, from: int) -> Option<int> {
    if exists|at: int| first_at(text, pat, from, at) {
        Some(choose|at: int| first_at(text, pat, from, at))
    } else {
        None
    }
}

/// A leftmost occurrence is the one that `find_from` names.
pub proof fn lemma_find_from_some(text: Seq<char>, pat: Seq<char>, from: int, at: int)
    requires
        first_at(text, pat, from, at),
    ensures
        find_from(text, pat, from) == Some(at),
{
    let c = choose|c: int| first_at(text, pat, from, c);
    assert(first_at(text, pat, from, c));
    if c < at {
        assert(!occurs_at(text, pat, c));
    }
    if at < c {
        assert(!occurs_at(text, pat, at));
    }
}

/// Where `pat` stands nowhere from `from` on, `find_from` names nothing.
pub proof fn lemma_find_from_none(text: Seq<char>, pat: Seq<char>, from: int)
    requires
        forall|j: int| from <= j ==> !occurs_at(text, pat, j),
    ensures
        find_from(text, pat, from) is None,
{
}

/// `pat` stands somewhere in `text`.
pub open spec fn contains(text: Seq<char>, pat: Seq<char>) -> bool {
    exists|at: int| occurs_at(text, pat, at)
}

/// A text stands in whatever is put before and behind it.
pub proof fn lemma_contains_part(before: Seq<char>, part: Seq<char>, behind: Seq<char>)
    ensures
        contains(before + part + behind, part),
{
    let whole = before + part + behind;
    assert(whole.subrange(before.len() as int, (before.len() + part.len()) as int) =~= part);
    assert(occurs_at(whole, part, before.len() as int));
}

/// What stands in a part of a text stands in the text.
pub proof fn lemma_contains_transitive(text: Seq<char>, part: Seq<char>, pat: Seq<char>)
    requires
        contains(text, part),
        contains(part, pat),
    ensures
        contains(text, pat),
{
    let i = choose|i: int| occurs_at(text, part, i);
    let j = choose|j: int| occurs_at(part, pat, j);
    assert(text.subrange(i + j, i + j + pat.len()) =~= text.subrange(i, i + part.len()).subrange(
        j,
        j + pat.len(),
    ));
    assert(occurs_at(text, pat, i + j));
}

/// The characters of a string slice, in order.
pub fn chars_of(s: &str) -> (r: Vec<char>)
    ensures
        r@ == s@,
{
    let mut out: Vec<char> = Vec::new();
    for c in it: s.chars()
        invariant
            out@ == it.seq().take(it.index() as int),
            it.seq() == s@,
    {
        out.push(c);
    }
    out
}

/// The string made of `chars[from..to]`.
pub fn string_of(chars: &Vec<char>, from: usize, to: usize) -> (r: String)
    requires
        from <= to <= chars.len(),
    ensures
        r@ == chars@.subrange(from as int, to as int),
{
    let mut out = String::new();
    let mut i: usize = from;
    while i < to
        invariant
            from <= i <= to <= chars.len(),
            out@ == chars@.subrange(from as int, i as int),
        decreases to - i,
    {
        out.push(chars[i]);
        i += 1;
    }
    out
}

/// Whether `pat` stands in `text` at index `at`.
pub fn matches_at(text: &Vec<char>, pat: &Vec<char>, at: usize) -> (r: bool)
    ensures
        r == occurs_at(text@, pat@, at as int),
{
    if pat.len() > text.len() || at > text.len() - pat.len() {
        return false;
    }
    let mut k: usize = 0;
    while k < pat.len()
        invariant
            k <= pat.len(),
            at + pat.len() <= text.len(),
            forall|m: int| 0 <= m < k ==> text@[at + m] == pat@[m],
        decreases pat.len() - k,
    {
        if text[at + k] != pat[k] {
            proof {
                let sub = text@.subrange(at as int, at + pat.len());
                assert(sub[k as int] == text@[at + k]);
            }
            return false;
        }
        k += 1;
    }
    assert(text@.subrange(at as int, at + pat.len()) =~= pat@);
    true
}

/// The leftmost index not before `from` at which `pat` stands in `text`.
pub fn find(text: &Vec<char>, pat: &Vec<char>, from: usize) -> (r: Option<usize>)
    ensures
        r matches Some(at) ==> find_from(text@, pat@, from as int) == Some(at as int),
        r is None ==> find_from(text@, pat@, from as int) is None,
{
    let mut i: usize = from;
    while i < text.len()
        invariant
            from <= i,
            forall|j: int| from <= j < i ==> !occurs_at(text@, pat@, j),
        decreases text.len() - i,
    {
        if matches_at(text, pat, i) {
            proof {
                lemma_find_from_some(text@, pat@, from as int, i as int);
            }
            return Some(i);
        }
        i += 1;
    }
    if matches_at(text, pat, i) {
        proof {
            lemma_find_from_some(text@, pat@, from as int, i as int);
        }
        return Some(i);
    }
    proof {
        lemma_find_from_none(text@, pat@, from as int);
    }
    None
}

/// The characters that count as white space: those with the Unicode property
/// `White_Space`.
pub open spec fn is_whitespace(c: char) -> bool {
    let u = c as int;
    ||| 0x09 <= u <= 0x0D
    ||| u == 0x20
    ||| u == 0x85
    ||| u == 0xA0
    ||| u == 0x1680
    ||| 0x2000 <= u <= 0x200A
    ||| u == 0x2028
    ||| u == 0x2029
    ||| u == 0x202F
    ||| u == 0x205F
    ||| u == 0x3000
}

/// `s` without its leading white space.
pub open spec fn trim_start(s: Seq<char>) -> Seq<char>
    decreases s.len(),
{
    if s.len() > 0 && is_whitespace(s[0]) {
        trim_start(s.drop_first())
    } else {
        s
    }
}

/// `s` without its trailing white space.
pub open spec fn trim_end(s: Seq<char>) -> Seq<char>
    decreases s.len(),
{
    if s.len() > 0 && is_whitespace(s.last()) {
        trim_end(s.drop_last())
    } else {
        s
    }
}

/// `s` without leading and trailing white space.
pub open spec fn trim(s: Seq<char>) -> Seq<char> {
    trim_end(trim_start(s))
}

/// Whether `c` is white space.
pub fn char_is_whitespace(c: char) -> (r: bool)
    ensures
        r == is_whitespace(c),
{
    let u: u32 = c as u32;
    (0x09 <= u && u <= 0x0D) || u == 0x20 || u == 0x85 || u == 0xA0 || u == 0x1680 || (0x2000 <= u
        && u <= 0x200A) || u == 0x2028 || u == 0x2029 || u == 0x202F || u == 0x205F || u == 0x3000
}

/// The bounds of `chars[from..to]` once its leading and trailing white space
/// is left out.
pub fn trim_bounds(chars: &Vec<char>, from: usize, to: usize) -> (r: (usize, usize))
    requires
        from <= to <= chars.len(),
    ensures
        from <= r.0 <= r.1 <= to,
        chars@.subrange(r.0 as int, r.1 as int) == trim(chars@.subrange(from as int, to as int)),
{
    let ghost whole = chars@.subrange(from as int, to as int);
    let mut a: usize = from;
    while a < to && char_is_whitespace(chars[a])
        invariant
            from <= a <= to <= chars.len(),
            trim_start(whole) == trim_start(chars@.subrange(a as int, to as int)),
        decreases to - a,
    {
        proof {
            let cur = chars@.subrange(a as int, to as int);
            assert(cur[0] == chars@[a as int]);
            assert(cur.drop_first() =~= chars@.subrange(a + 1, to as int));
        }
        a += 1;
    }
    proof {
        let cur = chars@.subrange(a as int, to as int);
        if a < to {
            assert(cur[0] == chars@[a as int]);
        }
        assert(trim_start(whole) == cur);
    }
    let ghost lead = chars@.subrange(a as int, to as int);
    let mut b: usize = to;
    while a < b && char_is_whitespace(chars[b - 1])
        invariant
            a <= b <= to <= chars.len(),
            trim_end(lead) == trim_end(chars@.subrange(a as int, b as int)),
        decreases b - a,
    {
        proof {
            let cur = chars@.subrange(a as int, b as int);
            assert(cur.last() == chars@[b - 1]);
            assert(cur.drop_last() =~= chars@.subrange(a as int, b - 1));
        }
        b -= 1;
    }
    proof {
        let cur = chars@.subrange(a as int, b as int);
        if a < b {
            assert(cur.last() == chars@[b - 1]);
        }
        assert(trim_end(lead) == cur);
    }
    (a, b)
}

/// `text` with every occurrence of `pat` replaced by `with`, found from left
/// to right without overlap. An empty `pat` replaces nothing.
pub open spec fn replace_all(text: Seq<char>, pat: Seq<char>, with: Seq<char>) -> Seq<char>
    decreases text.len(),
{
    if text.len() == 0 || pat.len() == 0 {
        text
    } else if occurs_at(text, pat, 0) {
        with + replace_all(text.skip(pat.len() as int), pat, with)
    } else {
        seq![text[0]] + replace_all(text.skip(1), pat, with)
    }
}

/// Replaces every occurrence of `pat` in `text` by `with`.
pub fn replace(text: &Vec<char>, pat: &Vec<char>, with: &Vec<char>) -> (r: Vec<char>)
    ensures
        r@ == replace_all(text@, pat@, with@),
{
    if pat.len() == 0 {
        return text.clone();
    }
    let mut out: Vec<char> = Vec::new();
    let mut i: usize = 0;
    proof {
        assert(text@.skip(0) =~= text@);
        assert(out@ + text@ =~= text@);
    }
    while i < text.len()
        invariant
            i <= text.len(),
            pat.len() > 0,
            replace_all(text@, pat@, with@) == out@ + replace_all(
                text@.skip(i as int),
                pat@,
                with@,
            ),
        decreases text.len() - i,
    {
        let ghost rest = text@.skip(i as int);
        let ghost before = out@;
        if matches_at(text, pat, i) {
            proof {
                assert(rest.subrange(0, pat.len() as int) =~= text@.subrange(
                    i as int,
                    i + pat.len(),
                ));
                assert(occurs_at(rest, pat@, 0));
                assert(rest.skip(pat.len() as int) =~= text@.skip(i + pat.len()));
            }
            let mut k: usize = 0;
            while k < with.len()
                invariant
                    k <= with.len(),
                    out@ == before + with@.take(k as int),
                decreases with.len() - k,
            {
                out.push(with[k]);
                proof {
                    assert(with@.take(k + 1) =~= with@.take(k as int).push(with@[k as int]));
                }
                k += 1;
            }
            proof {
                assert(with@.take(with.len() as int) =~= with@);
                assert((before + with@) + replace_all(rest.skip(pat.len() as int), pat@, with@)
                    =~= before + (with@ + replace_all(rest.skip(pat.len() as int), pat@, with@)));
            }
            i += pat.len();
        } else {
            proof {
                if occurs_at(rest, pat@, 0) {
                    assert(rest.subrange(0, pat.len() as int) =~= text@.subrange(
                        i as int,
                        i + pat.len(),
                    ));
                    assert(occurs_at(text@, pat@, i as int));
                }
                assert(rest[0] == text@[i as int]);
                assert(rest.skip(1) =~= text@.skip(i + 1));
                assert((before.push(text@[i as int])) + replace_all(rest.skip(1), pat@, with@)
                    =~= before + (seq![rest[0]] + replace_all(rest.skip(1), pat@, with@)));
            }
            out.push(text[i]);
            i += 1;
        }
    }
    proof {
        assert(text@.skip(i as int) =~= Seq::<char>::empty());
        assert(out@ + Seq::<char>::empty() =~= out@);
    }
    out
}

/// `a` comes strictly before `b` in dictionary order, characters compared by
/// their code points.
pub open spec fn lex_lt(a: Seq<char>, b: Seq<char>) -> bool
    decreases a.len(),
{
    if b.len() == 0 {
        false
    } else if a.len() == 0 {
        true
    } else if a[0] != b[0] {
        (a[0] as int) < (b[0] as int)
    } else {
        lex_lt(a.drop_first(), b.drop_first())
    }
}

/// Nothing comes before itself.
pub proof fn lemma_lex_lt_irreflexive(a: Seq<char>)
    ensures
        !lex_lt(a, a),
    decreases a.len(),
{
    if a.len() > 0 {
        lemma_lex_lt_irreflexive(a.drop_first());
    }
}

/// Of two different texts one comes before the other.
pub proof fn lemma_lex_lt_total(a: Seq<char>, b: Seq<char>)
    requires
        a != b,
    ensures
        lex_lt(a, b) || lex_lt(b, a),
    decreases a.len(),
{
    if a.len() > 0 && b.len() > 0 && a[0] == b[0] {
        if a.drop_first() == b.drop_first() {
            assert(a =~= seq![a[0]] + a.drop_first());
            assert(b =~= seq![b[0]] + b.drop_first());
        }
        lemma_lex_lt_total(a.drop_first(), b.drop_first());
    } else if a.len() == 0 && b.len() == 0 {
        assert(a =~= b);
    }
}

/// Dictionary order is transitive.
pub proof fn lemma_lex_lt_transitive(a: Seq<char>, b: Seq<char>, c: Seq<char>)
    requires
        lex_lt(a, b),
        lex_lt(b, c),
    ensures
        lex_lt(a, c),
    decreases a.len(),
{
    if a.len() > 0 && b.len() > 0 && c.len() > 0 && a[0] == b[0] && b[0] == c[0] {
        lemma_lex_lt_transitive(a.drop_first(), b.drop_first(), c.drop_first());
    }
}

/// No two texts come before each other.
pub proof fn lemma_lex_lt_asymmetric(a: Seq<char>, b: Seq<char>)
    requires
        lex_lt(a, b),
    ensures
        !lex_lt(b, a),
{
    if lex_lt(b, a) {
        lemma_lex_lt_transitive(a, b, a);
        lemma_lex_lt_irreflexive(a);
    }
}

/// Whether `a` comes strictly before `b` in dictionary order.
pub fn chars_lt(a: &Vec<char>, b: &Vec<char>) -> (r: bool)
    ensures
        r == lex_lt(a@, b@),
{
    let mut i: usize = 0;
    proof {
        assert(a@.skip(0) =~= a@);
        assert(b@.skip(0) =~= b@);
    }
    while i < a.len() && i < b.len()
        invariant
            i <= a.len(),
            i <= b.len(),
            lex_lt(a@, b@) == lex_lt(a@.skip(i as int), b@.skip(i as int)),
        decreases a.len() - i,
    {
        let ghost ra = a@.skip(i as int);
        let ghost rb = b@.skip(i as int);
        proof {
            assert(ra[0] == a@[i as int]);
            assert(rb[0] == b@[i as int]);
            assert(ra.drop_first() =~= a@.skip(i + 1));
            assert(rb.drop_first() =~= b@.skip(i + 1));
        }
        if a[i] != b[i] {
            return a[i] < b[i];
        }
        i += 1;
    }
    i < b.len()
}

/// Whether the string `a` comes strictly before the string `b`.
pub fn str_lt(a: &str, b: &str) -> (r: bool)
    ensures
        r == lex_lt(a@, b@),
{
    let ca = chars_of(a);
    let cb = chars_of(b);
    chars_lt(&ca, &cb)
}

/// Strictly ascending in dictionary order.
pub open spec fn strictly_sorted(names: Seq<Seq<char>>) -> bool {
    forall|i: int, j: int| 0 <= i < j < names.len() ==> lex_lt(names[i], names[j])
}

/// Two strictly ascending lists that hold the same texts are the same list.
pub proof fn lemma_strictly_sorted_unique(a: Seq<Seq<char>>, b: Seq<Seq<char>>)
    requires
        strictly_sorted(a),
        strictly_sorted(b),
        a.to_set() == b.to_set(),
    ensures
        a == b,
    decreases a.len(),
{
    if a.len() == 0 {
        if b.len() > 0 {
            assert(b.to_set().contains(b[0]));
            assert(a.to_set().contains(b[0]));
        }
        assert(a =~= b);
    } else if b.len() == 0 {
        assert(a.to_set().contains(a[0]));
        assert(b.to_set().contains(a[0]));
    } else {
        // the last of each is the greatest of the common set
        let la = a.last();
        let lb = b.last();
        assert(a.to_set().contains(la));
        assert(b.to_set().contains(la));
        assert(b.to_set().contains(lb));
        assert(a.to_set().contains(lb));
        let ia = choose|i: int| 0 <= i < a.len() && a[i] == lb;
        let ib = choose|i: int| 0 <= i < b.len() && b[i] == la;
        if la != lb {
            assert(ia < a.len() - 1);
            assert(lex_lt(a[ia], a[a.len() - 1]));
            assert(ib < b.len() - 1);
            assert(lex_lt(b[ib], b[b.len() - 1]));
            lemma_lex_lt_asymmetric(la, lb);
        }
        let a0 = a.drop_last();
        let b0 = b.drop_last();
        assert forall|x: Seq<char>| a0.to_set().contains(x) <==> b0.to_set().contains(x) by {
            if a0.to_set().contains(x) {
                let i = choose|i: int| 0 <= i < a0.len() && a0[i] == x;
                assert(a[i] == x);
                assert(lex_lt(a[i], a[a.len() - 1]));
                lemma_lex_lt_irreflexive(la);
                assert(a.to_set().contains(x));
                assert(b.to_set().contains(x));
                let k = choose|k: int| 0 <= k < b.len() && b[k] == x;
                assert(k < b.len() - 1);
                assert(b0[k] == x);
            }
            if b0.to_set().contains(x) {
                let i = choose|i: int| 0 <= i < b0.len() && b0[i] == x;
                assert(b[i] == x);
                assert(lex_lt(b[i], b[b.len() - 1]));
                lemma_lex_lt_irreflexive(lb);
                assert(b.to_set().contains(x));
                assert(a.to_set().contains(x));
                let k = choose|k: int| 0 <= k < a.len() && a[k] == x;
                assert(k < a.len() - 1);
                assert(a0[k] == x);
            }
        }
        assert(a0.to_set() =~= b0.to_set());
        assert forall|i: int, j: int| 0 <= i < j < a0.len() implies lex_lt(a0[i], a0[j]) by {
            assert(lex_lt(a[i], a[j]));
        }
        assert forall|i: int, j: int| 0 <= i < j < b0.len() implies lex_lt(b0[i], b0[j]) by {
            assert(lex_lt(b[i], b[j]));
        }
        lemma_strictly_sorted_unique(a0, b0);
        assert(a =~= a0.push(la));
        assert(b =~= b0.push(lb));
    }
}

/// The character of one decimal digit.
pub open spec fn digit_char(d: int) -> char {
    if d == 0 {
        '0'
    } else if d == 1 {
        '1'
    } else if d == 2 {
        '2'
    } else if d == 3 {
        '3'
    } else if d == 4 {
        '4'
    } else if d == 5 {
        '5'
    } else if d == 6 {
        '6'
    } else if d == 7 {
        '7'
    } else if d == 8 {
        '8'
    } else {
        '9'
    }
}

/// The decimal digits of `n`, most significant first, without leading zeros.
pub open spec fn decimal(n: nat) -> Seq<char>
    decreases n,
{
    if n < 10 {
        seq![digit_char(n as int)]
    } else {
        decimal(n / 10).push(digit_char((n % 10) as int))
    }
}

fn digit_of(d: usize) -> (c: char)
    requires
        d < 10,
    ensures
        c == digit_char(d as int),
{
    if d == 0 {
        '0'
    } else if d == 1 {
        '1'
    } else if d == 2 {
        '2'
    } else if d == 3 {
        '3'
    } else if d == 4 {
        '4'
    } else if d == 5 {
        '5'
    } else if d == 6 {
        '6'
    } else if d == 7 {
        '7'
    } else if d == 8 {
        '8'
    } else {
        '9'
    }
}

/// Appends the decimal digits of `n` to `out`.
pub fn push_decimal(out: &mut String, n: usize)
    ensures
        final(out)@ == old(out)@ + decimal(n as nat),
    decreases n,
{
    if n >= 10 {
        push_decimal(out, n / 10);
    }
    out.push(digit_of(n % 10));
}

/// `n` written in decimal.
pub fn decimal_string(n: usize) -> (r: String)
    ensures
        r@ == decimal(n as nat),
{
    let mut out = String::new();
    push_decimal(&mut out, n);
    out
}

/// Ascending in dictionary order; equal texts may stand side by side.
pub open spec fn sorted(names: Seq<Seq<char>>) -> bool {
    forall|i: int, j: int| 0 <= i < j < names.len() ==> !lex_lt(names[j], names[i])
}

/// The texts of a list of strings.
pub open spec fn texts(strings: Seq<String>) -> Seq<Seq<char>> {
    strings.map_values(|s: String| s@)
}

/// `names` holds what `of` holds, as often, in ascending dictionary order.
pub open spec fn sorts(names: Seq<Seq<char>>, of: Seq<Seq<char>>) -> bool {
    sorted(names) && names.to_multiset() == of.to_multiset()
}

/// The texts of `of` in ascending dictionary order.
pub open spec fn sorted_texts(of: Seq<Seq<char>>) -> Seq<Seq<char>> {
    choose|names: Seq<Seq<char>>| sorts(names, of)
}

/// Two ascending lists that hold the same texts equally often are the same
/// list.
pub proof fn lemma_sorted_unique(a: Seq<Seq<char>>, b: Seq<Seq<char>>)
    requires
        sorted(a),
        sorted(b),
        a.to_multiset() == b.to_multiset(),
    ensures
        a == b,
    decreases a.len(),
{
    a.to_multiset_ensures();
    b.to_multiset_ensures();
    if a.len() == 0 {
        assert(a =~= b);
    } else {
        let la = a.last();
        let lb = b.last();
        assert(a.contains(la)) by {
            assert(a[a.len() - 1] == la);
        }
        assert(b.contains(lb)) by {
            assert(b[b.len() - 1] == lb);
        }
        assert(a.to_multiset().count(la) > 0);
        assert(b.to_multiset().count(la) > 0);
        assert(b.contains(la));
        assert(b.to_multiset().count(lb) > 0);
        assert(a.to_multiset().count(lb) > 0);
        assert(a.contains(lb));
        let ib = choose|i: int| 0 <= i < b.len() && b[i] == la;
        let ia = choose|i: int| 0 <= i < a.len() && a[i] == lb;
        if la != lb {
            assert(ib < b.len() - 1);
            assert(!lex_lt(b[b.len() - 1], b[ib]));
            assert(ia < a.len() - 1);
            assert(!lex_lt(a[a.len() - 1], a[ia]));
            lemma_lex_lt_total(la, lb);
        }
        let a0 = a.drop_last();
        let b0 = b.drop_last();
        assert(a.remove(a.len() - 1) =~= a0);
        assert(b.remove(b.len() - 1) =~= b0);
        vstd::seq_lib::to_multiset_remove(a, a.len() - 1);
        vstd::seq_lib::to_multiset_remove(b, b.len() - 1);
        assert forall|i: int, j: int| 0 <= i < j < a0.len() implies !lex_lt(a0[j], a0[i]) by {
            assert(!lex_lt(a[j], a[i]));
        }
        assert forall|i: int, j: int| 0 <= i < j < b0.len() implies !lex_lt(b0[j], b0[i]) by {
            assert(!lex_lt(b[j], b[i]));
        }
        lemma_sorted_unique(a0, b0);
        assert(a =~= a0.push(la));
        assert(b =~= b0.push(lb));
    }
}

/// Sorting a list that holds no text twice gives a strictly ascending list
/// of the same texts.
pub proof fn lemma_sorted_without_duplicates(names: Seq<Seq<char>>, of: Seq<Seq<char>>)
    requires
        sorts(names, of),
        of.no_duplicates(),
    ensures
        strictly_sorted(names),
        names.to_set() == of.to_set(),
{
    of.lemma_multiset_has_no_duplicates();
    names.lemma_multiset_has_no_duplicates_conv();
    names.to_multiset_ensures();
    of.to_multiset_ensures();
    assert forall|i: int, j: int| 0 <= i < j < names.len() implies lex_lt(names[i], names[j]) by {
        assert(names[i] != names[j]);
        lemma_lex_lt_total(names[i], names[j]);
    }
    assert forall|x: Seq<char>| names.to_set().contains(x) <==> of.to_set().contains(x) by {
        assert(names.contains(x) <==> names.to_multiset().count(x) > 0);
        assert(of.contains(x) <==> of.to_multiset().count(x) > 0);
    }
    assert(names.to_set() =~= of.to_set());
}

/// A list that sorts `of` is the one that `sorted_texts` names.
pub proof fn lemma_sorted_texts(names: Seq<Seq<char>>, of: Seq<Seq<char>>)
    requires
        sorts(names, of),
    ensures
        sorted_texts(of) == names,
{
    let chosen = sorted_texts(of);
    assert(sorts(chosen, of));
    lemma_sorted_unique(chosen, names);
}

/// The strings of `items` in ascending dictionary order.
pub fn sort_strings(items: Vec<String>) -> (r: Vec<String>)
    ensures
        sorts(texts(r@), texts(items@)),
        texts(r@) == sorted_texts(texts(items@)),
{
    let ghost all = texts(items@);
    let mut out: Vec<String> = Vec::new();
    proof {
        assert(all.take(0) =~= Seq::<Seq<char>>::empty());
        assert(texts(out@) =~= Seq::<Seq<char>>::empty());
    }
    for name in it: items
        invariant
            it.seq() == items@,
            all == texts(items@),
            sorted(texts(out@)),
            texts(out@).to_multiset() == all.take(it.index() as int).to_multiset(),
    {
        let ghost k = it.index() as int;
        let ghost held = texts(out@);
        let mut p: usize = 0;
        while p < out.len() && !str_lt(name.as_str(), out[p].as_str())
            invariant
                p <= out@.len(),
                texts(out@) == held,
                forall|q: int| 0 <= q < p ==> !lex_lt(name@, held[q]),
            decreases out@.len() - p,
        {
            p += 1;
        }
        proof {
            let after = held.insert(p as int, name@);
            assert forall|i: int, j: int| 0 <= i < j < after.len() implies !lex_lt(
                after[j],
                after[i],
            ) by {
                if j < p {
                    assert(!lex_lt(held[j], held[i]));
                } else if j == p {
                    assert(after[i] == held[i]);
                } else {
                    assert(after[j] == held[j - 1]);
                    if i < p {
                        assert(after[i] == held[i]);
                        assert(!lex_lt(held[j - 1], held[i]));
                    } else if i == p {
                        assert(lex_lt(name@, held[p as int]));
                        if j - 1 > p {
                            assert(!lex_lt(held[j - 1], held[p as int]));
                        }
                        if lex_lt(held[j - 1], name@) {
                            lemma_lex_lt_transitive(held[j - 1], name@, held[p as int]);
                            lemma_lex_lt_irreflexive(held[p as int]);
                        }
                    } else {
                        assert(after[i] == held[i - 1]);
                        assert(!lex_lt(held[j - 1], held[i - 1]));
                    }
                }
            }
            assert(after.remove(p as int) =~= held);
            assert(after.to_multiset() =~= held.to_multiset().insert(name@)) by {
                vstd::seq_lib::to_multiset_remove(after, p as int);
                after.to_multiset_ensures();
                assert(after[p as int] == name@);
                assert(after.contains(name@));
            }
            let upto = all.take(k + 1);
            assert(upto =~= all.take(k).push(name@));
            vstd::seq_lib::to_multiset_build(all.take(k), name@);
            assert(texts(out@.insert(p as int, name)) =~= after);
        }
        out.insert(p, name);
    }
    proof {
        assert(all.take(items@.len() as int) =~= all);
        lemma_sorted_texts(texts(out@), all);
    }
    out
}

} // verus!
