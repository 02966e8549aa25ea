use php_front::reader::Reader;

fn source(text: &str) -> Reader {
    Reader::new(text.to_string())
}

#[test]
fn new_reader_stands_at_the_start() {
    let reader = source("ab");
    assert!(!reader.is_end());
    assert_eq!(reader.peek_char(), 'a');
    assert_eq!(reader.peek_char_back(), None);
}

#[test]
fn empty_reader_is_at_its_end() {
    assert!(source("").is_end());
}

#[test]
fn forward_moves_one_character() {
    let mut reader = source("ab");
    reader.forward();
    assert_eq!(reader.peek_char(), 'b');
    assert_eq!(reader.peek_char_back(), Some('a'));
    reader.forward();
    assert!(reader.is_end());
}

#[test]
fn position_counts_the_characters_passed() {
    let mut reader = source("abc");
    assert_eq!(reader.position(), 0);
    reader.forward();
    assert_eq!(reader.position(), 1);
    reader.forward_n(2);
    assert_eq!(reader.position(), 3);
}

#[test]
fn forward_n_moves_n_characters() {
    let mut reader = source("abcdef");
    reader.forward_n(4);
    assert_eq!(reader.peek_char(), 'e');
    reader.forward_n(0);
    assert_eq!(reader.peek_char(), 'e');
    reader.forward_n(2);
    assert!(reader.is_end());
}

#[test]
fn peek_char_n_takes_n_characters() {
    let mut reader = source("<?php x");
    assert_eq!(reader.peek_char_n(5), "<?php");
    assert_eq!(reader.peek_char_n(0), "");
    reader.forward_n(2);
    assert_eq!(reader.peek_char_n(3), "php");
}

#[test]
fn peek_char_n_stops_at_the_end() {
    let mut reader = source("abc");
    assert_eq!(reader.peek_char_n(10), "abc");
    assert_eq!(reader.peek_char_n(usize::MAX), "abc");
    reader.forward_n(3);
    assert_eq!(reader.peek_char_n(1), "");
}

#[test]
fn peek_char_from_looks_ahead() {
    let reader = source("ab");
    assert_eq!(reader.peek_char_from(0), Some('a'));
    assert_eq!(reader.peek_char_from(1), Some('b'));
    assert_eq!(reader.peek_char_from(2), None);
    assert_eq!(reader.peek_char_from(usize::MAX), None);
}

#[test]
fn peek_until_takes_the_longest_run() {
    let mut reader = source("abc123");
    assert_eq!(reader.peek_until(|c: char| c.is_alphabetic()), "abc");
    assert_eq!(reader.peek_until(|c: char| c.is_numeric()), "");
    assert_eq!(reader.peek_until(|_c: char| true), "abc123");
    reader.forward_n(3);
    assert_eq!(reader.peek_until(|c: char| c.is_numeric()), "123");
    assert_eq!(reader.peek_char(), '1');
}

#[test]
fn reader_counts_characters_not_bytes() {
    let mut reader = source("\u{e9}\u{4e16}z");
    assert_eq!(reader.peek_char_n(2), "\u{e9}\u{4e16}");
    reader.forward_n(2);
    assert_eq!(reader.peek_char(), 'z');
}
