use zerospider::text::{chars_of, contains, contains_str, decimal_string, join3, normalize};

#[test]
fn normalize_lowers_strips_and_collapses() {
    assert_eq!(normalize("  The  Answer, is: 42!  "), "the answer is 42");
}

#[test]
fn normalize_keeps_letters_and_digits_of_any_script() {
    assert_eq!(normalize("\u{00c9}t\u{00e9}\t2024\n"), "\u{00e9}t\u{00e9} 2024");
}

#[test]
fn normalize_of_only_punctuation_is_empty() {
    assert_eq!(normalize("?!... ,"), "");
    assert_eq!(normalize(""), "");
}

#[test]
fn normalize_joins_words_that_punctuation_held_apart() {
    // what is stripped leaves no gap: only white space parts words
    assert_eq!(normalize("a-b c"), "ab c");
}

#[test]
fn decimal_string_renders_digits() {
    assert_eq!(decimal_string(0), "0");
    assert_eq!(decimal_string(7), "7");
    assert_eq!(decimal_string(10), "10");
    assert_eq!(decimal_string(1234567890), "1234567890");
    assert_eq!(decimal_string(u64::MAX), "18446744073709551615");
}

#[test]
fn chars_are_characters_not_bytes() {
    let v = chars_of("h\u{00e9}llo");
    assert_eq!(v, vec!['h', '\u{00e9}', 'l', 'l', 'o']);
}

#[test]
fn contains_finds_infixes_only() {
    let hay = chars_of("please refine this");
    assert!(contains_str(&hay, "refine"));
    assert!(contains_str(&hay, "please"));
    assert!(contains_str(&hay, "this"));
    assert!(contains_str(&hay, ""));
    assert!(!contains_str(&hay, "refined"));
    assert!(!contains_str(&hay, "please refine this!"));
    assert!(contains(&chars_of(""), &chars_of("")));
    assert!(!contains(&chars_of(""), &chars_of("a")));
}

#[test]
fn joins_concatenate() {
    assert_eq!(join3("openai", "/", "gpt-4o"), "openai/gpt-4o");
}
