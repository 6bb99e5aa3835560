use cortex_rs::ranking::{lexical_match, rank_by_keys};
use cortex_rs::models::LexicalMatch;
use cortex_rs::text::{chars_of, contains, remove_char, string_of, trim};

#[test]
fn trim_removes_unicode_white_space_on_both_sides() {
    assert_eq!(trim("  hello world\t\n"), "hello world");
    assert_eq!(trim("\u{3000}x\u{a0}"), "x");
    assert_eq!(trim("   "), "");
    assert_eq!(trim(""), "");
}

#[test]
fn contains_finds_substrings() {
    let h = chars_of("native NOT tokenizer");
    assert!(contains(&h, &chars_of(" NOT ")));
    assert!(!contains(&h, &chars_of(" AND ")));
    assert!(contains(&h, &chars_of("")));
}

#[test]
fn remove_char_drops_quotes() {
    let v = remove_char(&chars_of("a\"b\"c"), '"');
    assert_eq!(string_of(&v), "abc");
}

#[test]
fn lexical_match_prefers_name_then_content_ignoring_case() {
    assert_eq!(lexical_match("RUST", "rust_engine", "nothing"), LexicalMatch::Name);
    assert_eq!(lexical_match("Rust", "engine", "Testing the native Rust engine"), LexicalMatch::Content);
    assert_eq!(lexical_match("python", "engine", "Testing"), LexicalMatch::Neither);
}

#[test]
fn rank_by_keys_is_stable_descending_and_cut() {
    let keys = vec![5i64, 9, 5, 1, 9];
    assert_eq!(rank_by_keys(&keys, 10), vec![1, 4, 0, 2, 3]);
    assert_eq!(rank_by_keys(&keys, 2), vec![1, 4]);
    assert_eq!(rank_by_keys(&keys, 0), Vec::<usize>::new());
    assert_eq!(rank_by_keys(&Vec::new(), 3), Vec::<usize>::new());
}
