//! Whitespace tokenization: token boundaries, offsets, the byte-length
//! cap, and resetting.

use searchcore::tokenizer::{WhitespaceTokenizer, MAX_WORD_LEN};

fn tokens_of(text: &str) -> Vec<(String, usize, usize)> {
    let mut t = WhitespaceTokenizer::new(text.chars().collect());
    let mut out = Vec::new();
    while t.increment_token() {
        out.push((
            t.term().iter().collect::<String>(),
            t.start_offset(),
            t.end_offset(),
        ));
    }
    out
}

#[test]
fn splits_text_at_whitespace() {
    let toks = tokens_of("hello  world\tfoo\nbar");
    assert_eq!(toks, vec![
        (String::from("hello"), 0, 5),
        (String::from("world"), 7, 12),
        (String::from("foo"), 13, 16),
        (String::from("bar"), 17, 20),
    ]);
}

#[test]
fn empty_text_yields_no_tokens() {
    assert_eq!(tokens_of(""), vec![]);
}

#[test]
fn whitespace_only_text_yields_no_tokens() {
    assert_eq!(tokens_of(" \t\n  "), vec![]);
}

#[test]
fn single_token_without_surrounding_whitespace() {
    assert_eq!(tokens_of("alone"), vec![(String::from("alone"), 0, 5)]);
}

#[test]
fn leading_and_trailing_whitespace() {
    assert_eq!(tokens_of("  x  "), vec![(String::from("x"), 2, 3)]);
}

#[test]
fn non_breaking_space_splits_tokens() {
    // U+00A0 is Unicode whitespace, so it splits like an ordinary space
    let toks = tokens_of("a\u{a0}b");
    assert_eq!(toks, vec![
        (String::from("a"), 0, 1),
        (String::from("b"), 2, 3),
    ]);
}

#[test]
fn long_runs_split_at_the_byte_cap() {
    // 600 ASCII bytes: the first token holds the cap's worth of bytes, the
    // second the rest
    let text = "x".repeat(600);
    let toks = tokens_of(&text);
    assert_eq!(toks.len(), 2);
    assert_eq!(toks[0].0.len(), MAX_WORD_LEN);
    assert_eq!(toks[1].0.len(), 600 - MAX_WORD_LEN);
}

#[test]
fn multi_byte_characters_count_by_encoded_length() {
    // '\u{4e00}' encodes to three bytes; 171 of them exceed 511 bytes at
    // the 171st, so the first token has 171 characters (513 bytes)
    let text: String = std::iter::repeat('\u{4e00}').take(200).collect();
    let toks = tokens_of(&text);
    assert_eq!(toks.len(), 2);
    assert_eq!(toks[0].0.chars().count(), 171);
    assert_eq!(toks[1].0.chars().count(), 29);
}

#[test]
fn is_token_char_is_the_negation_of_whitespace() {
    let t = WhitespaceTokenizer::new(Vec::new());
    assert!(t.is_token_char('a'));
    assert!(t.is_token_char('-'));
    assert!(!t.is_token_char(' '));
    assert!(!t.is_token_char('\t'));
    assert!(!t.is_token_char('\u{a0}'));
}

#[test]
fn reset_rewinds_to_the_start() {
    let mut t = WhitespaceTokenizer::new("a b".chars().collect());
    assert!(t.increment_token());
    assert!(t.increment_token());
    assert!(!t.increment_token());
    let final_offset = t.end();
    assert_eq!(final_offset, 3);
    t.reset();
    assert!(t.increment_token());
    assert_eq!(t.term().iter().collect::<String>(), "a");
}
