use alpaca_rs::fence::scan;
use alpaca_rs::text::{
    char_is_whitespace, chars_lt, chars_of, decimal_string, find, matches_at, replace,
    sort_strings, str_lt, string_of, trim_bounds,
};

fn chars(s: &str) -> Vec<char> {
    s.chars().collect()
}

fn replaced(text: &str, pat: &str, with: &str) -> String {
    replace(&chars(text), &chars(pat), &chars(with)).into_iter().collect()
}

fn trimmed(s: &str) -> String {
    let all = chars(s);
    let (a, b) = trim_bounds(&all, 0, all.len());
    string_of(&all, a, b)
}

#[test]
fn chars_and_strings() {
    assert_eq!(chars_of("aé\u{10000}"), vec!['a', 'é', '\u{10000}']);
    assert_eq!(chars_of(""), Vec::new());
    assert_eq!(string_of(&chars("hello"), 1, 3), "el");
    assert_eq!(string_of(&chars("hello"), 5, 5), "");
}

#[test]
fn find_gives_the_leftmost_place() {
    let text = chars("abcabcab");
    assert_eq!(find(&text, &chars("bc"), 0), Some(1));
    assert_eq!(find(&text, &chars("bc"), 1), Some(1));
    assert_eq!(find(&text, &chars("bc"), 2), Some(4));
    assert_eq!(find(&text, &chars("bc"), 5), None);
    assert_eq!(find(&text, &chars("abcabcabc"), 0), None);
    assert_eq!(find(&text, &chars(""), 3), Some(3));
    assert_eq!(find(&text, &chars(""), 8), Some(8));
    assert_eq!(find(&text, &chars(""), 9), None);
    assert_eq!(find(&text, &chars("ab"), 6), Some(6));
    assert!(matches_at(&text, &chars("ab"), 6));
    assert!(!matches_at(&text, &chars("ab"), 7));
    assert!(!matches_at(&text, &chars("ab"), usize::MAX));
}

#[test]
fn white_space_is_what_unicode_says() {
    for code in 0..=0x11000u32 {
        if let Some(c) = char::from_u32(code) {
            assert_eq!(char_is_whitespace(c), c.is_whitespace(), "U+{:04X}", code);
        }
    }
}

#[test]
fn trim_as_str_trim() {
    for s in [
        "", " ", "a", "  a b  ", "\n\t x\u{00A0}", "\u{3000}\u{2003}", "x \u{0085}", " é ",
    ] {
        assert_eq!(trimmed(s), s.trim(), "{:?}", s);
    }
    let all = chars("ab  cd  ef");
    assert_eq!(trim_bounds(&all, 2, 8), (4, 6));
    assert_eq!(trim_bounds(&all, 2, 4), (4, 4));
}

#[test]
fn replace_as_str_replace() {
    for (text, pat, with) in [
        ("a<0xC2><0xA0>b<0xC2><0xA0>", "<0xC2><0xA0>", " "),
        ("aaaa", "aa", "b"),
        ("aaa", "aa", "b"),
        ("abc", "", "x"),
        ("abc", "abcd", "x"),
        ("", "a", "x"),
        ("abab", "ab", ""),
        ("xyz", "y", "yy"),
    ] {
        let expected = if pat.is_empty() {
            text.to_string()
        } else {
            text.replace(pat, with)
        };
        assert_eq!(replaced(text, pat, with), expected, "{:?} {:?}", text, pat);
    }
}

#[test]
fn order_as_str_order() {
    let samples = ["", "a", "ab", "b", "B", "é", "z", "\u{FFFF}", "\u{10000}", "aé", "a\u{10000}"];
    for a in samples {
        for b in samples {
            assert_eq!(str_lt(a, b), a < b, "{:?} {:?}", a, b);
            assert_eq!(chars_lt(&chars(a), &chars(b)), a < b);
        }
    }
}

#[test]
fn sort_as_slice_sort() {
    let items: Vec<String> = ["pear", "apple", "", "fig", "apple", "Pear", "é"]
        .iter()
        .map(|s| s.to_string())
        .collect();
    let mut expected = items.clone();
    expected.sort();
    assert_eq!(sort_strings(items), expected);
    assert_eq!(sort_strings(Vec::new()), Vec::<String>::new());
}

#[test]
fn decimal_digits() {
    assert_eq!(decimal_string(0), "0");
    assert_eq!(decimal_string(7), "7");
    assert_eq!(decimal_string(10), "10");
    assert_eq!(decimal_string(1234567890), "1234567890");
    assert_eq!(decimal_string(usize::MAX), usize::MAX.to_string());
}

#[test]
fn scan_finds_spans_between_markers() {
    let spans = scan(&chars("<a> x <b><a>y<b> <a> z"), &chars("<a>"), &chars("<b>"));
    assert_eq!(spans, vec!["x", "y"]);
    let spans = scan(&chars("[[]]"), &chars("["), &chars("]"));
    assert_eq!(spans, vec!["["]);
    let spans = scan(&chars("ab"), &chars("a"), &chars(""));
    assert_eq!(spans, vec![""]);
}

#[test]
fn json_blocks_as_the_pattern_finds_them() {
    let pattern = regex::Regex::new(r"```json\s*([\s\S]*?)\s*```").unwrap();
    let samples = [
        "",
        "```json```",
        "```json1```",
        "```json \n\t {\"a\": 1} \n ```",
        "a```json x ```b```json y ```c",
        "```json x ``````json y ```",
        "```json x ```json y ``` z ```",
        "```json never closed",
        "````json x ````",
        "```json\u{00A0}x\u{2003}```",
        "```json \u{3000} ```",
        "```json `` ` ```",
        "```jso ```json a\n\nb ```",
        "```json\n{\n  \"k\": \"`\"\n}\n```\n```json\n[]\n```",
        "``` ```json é ``` ```",
        "```json```json```json```",
        "```JSON x ``` ```json y```",
        "```json x`````json y```",
    ];
    for sample in samples {
        let expected: Vec<String> = pattern
            .captures_iter(sample)
            .map(|c| c.get(1).unwrap().as_str().to_string())
            .collect();
        let found = scan(&chars(sample), &chars("```json"), &chars("```"));
        assert_eq!(found, expected, "{:?}", sample);
    }
}
