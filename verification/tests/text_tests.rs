use duster::lexical::{comes_before, sort_texts};
use duster::text::{
    among, begins_with, chars_of, contains, decimal_text, ends_with, find_first, find_last,
    push_signed_decimal, read_u64, same_text, text_of, trim,
};

fn chars(s: &str) -> Vec<char> {
    s.chars().collect()
}

#[test]
fn text_goes_to_characters_and_back() {
    assert_eq!(chars_of("héllo"), chars("héllo"));
    assert_eq!(text_of(&chars("héllo")), "héllo");
    assert_eq!(text_of(&chars_of("")), "");
}

#[test]
fn decimal_notation_has_no_leading_zeros() {
    assert_eq!(decimal_text(0), "0");
    assert_eq!(decimal_text(7), "7");
    assert_eq!(decimal_text(10), "10");
    assert_eq!(decimal_text(1234567890), "1234567890");
    assert_eq!(decimal_text(u64::MAX), "18446744073709551615");
}

#[test]
fn signed_numbers_carry_their_sign() {
    for n in [0i64, 5, -5, 42, -1, i64::MAX, i64::MIN] {
        let mut out = Vec::new();
        push_signed_decimal(&mut out, n);
        assert_eq!(text_of(&out), n.to_string());
    }
}

#[test]
fn numbers_are_read_as_the_standard_library_reads_them() {
    for text in [
        "0",
        "42",
        "+42",
        "0042",
        "",
        "+",
        "-1",
        "4 2",
        "18446744073709551615",
        "18446744073709551616",
        "99999999999999999999999",
        "12a",
        "１２",
    ] {
        assert_eq!(read_u64(&chars(text)), text.parse::<u64>().ok(), "reading {:?}", text);
    }
}

#[test]
fn trimming_agrees_with_the_standard_library() {
    for text in ["  a b  ", "\t\nx\r\n", "", "   ", "x", "\u{3000}wide\u{a0}"] {
        assert_eq!(text_of(&trim(&chars(text))), text.trim(), "trimming {:?}", text);
    }
}

#[test]
fn searching_finds_what_is_there() {
    let hay = chars("/home/u/target/debug");
    assert!(contains(&hay, &chars("target")));
    assert!(contains(&hay, &chars("")));
    assert!(!contains(&hay, &chars("targets")));
    assert!(begins_with(&hay, &chars("/home")));
    assert!(!begins_with(&hay, &chars("home")));
    assert!(ends_with(&hay, &chars("debug")));
    assert!(!ends_with(&hay, &chars("debu")));
    assert_eq!(find_first(&hay, '/'), Some(0));
    assert_eq!(find_last(&hay, '/'), Some(14));
    assert_eq!(find_first(&hay, '*'), None);
    assert!(same_text("abc", "abc"));
    assert!(!same_text("abc", "abd"));
    assert!(among(&chars("b"), &vec!["a", "b"]));
    assert!(!among(&chars("c"), &vec!["a", "b"]));
}

#[test]
fn texts_are_ordered_as_strings_are() {
    let words = ["", "a", "ab", "b", "B", "é", "abc", "ab", "zz", "z"];
    for a in words {
        for b in words {
            assert_eq!(comes_before(&chars(a), &chars(b)), a < b, "{:?} before {:?}", a, b);
        }
    }
    let list: Vec<String> = words.iter().map(|w| w.to_string()).collect();
    let mut expected = list.clone();
    expected.sort();
    let sorted: Vec<String> = sort_texts(&list).into_iter().map(|c| c.into_iter().collect()).collect();
    assert_eq!(sorted, expected);
}
