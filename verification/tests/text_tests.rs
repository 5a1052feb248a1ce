use plexel::text::{count_content_lines, content_lines_of, summarize_text, tokenize};

#[test]
fn tokenize_splits_on_non_alphanumeric_and_lowercases() {
    assert_eq!(tokenize("Hello, World! 123abc"), vec!["hello", "world", "123abc"]);
}

#[test]
fn tokenize_empty_and_separator_only_texts() {
    assert!(tokenize("").is_empty());
    assert!(tokenize(" ,.;\n\t ").is_empty());
}

#[test]
fn tokenize_unicode_letters() {
    assert_eq!(tokenize("ÄBC déf_GHI"), vec!["äbc", "déf", "ghi"]);
}

#[test]
fn tokens_are_never_empty() {
    for t in tokenize("  a--b  ..c1 ") {
        assert!(!t.is_empty());
    }
}

#[test]
fn summary_takes_first_three_nonblank_lines() {
    let text = "  first line \n\n second\r\nthird\nfourth";
    assert_eq!(summarize_text(text), "first line | second | third");
}

#[test]
fn summary_of_fewer_lines() {
    assert_eq!(summarize_text("only"), "only");
    assert_eq!(summarize_text("a\n\nb\n"), "a | b");
}

#[test]
fn summary_of_blank_text() {
    assert_eq!(summarize_text(""), "No OCR text extracted");
    assert_eq!(summarize_text("   \n\t\n  "), "No OCR text extracted");
}

#[test]
fn content_lines_follow_str_lines() {
    assert_eq!(content_lines_of("a\r\nb\n\n c \n"), vec!["a", "b", "c"]);
    assert_eq!(count_content_lines("x\ny\n\nz"), 3);
    assert_eq!(count_content_lines(""), 0);
    assert_eq!(count_content_lines("\n\n"), 0);
}

#[test]
fn tokens_of_joined_texts() {
    let a = "Foo bar";
    let b = "Baz-QUX";
    let joined = format!("{}{}{}", a, ' ', b);
    let mut expected = tokenize(a);
    expected.extend(tokenize(b));
    assert_eq!(tokenize(&joined), expected);
    assert_eq!(tokenize("a\tb"), vec!["a", "b"]);
}

#[test]
fn tokenize_blank_text_has_no_words() {
    assert!(tokenize("   \n\r\t\u{a0}\u{3000}").is_empty());
    assert!(tokenize("!!").is_empty());
    assert_eq!(tokenize("!a!"), vec!["a"]);
}

#[test]
fn summary_is_one_line_and_ignores_outer_whitespace() {
    let text = "\n\n  one \r\n two\n\n three \n four\n \t";
    let s = summarize_text(text);
    assert!(!s.contains('\n'));
    assert_eq!(s, "one | two | three");
    assert_eq!(summarize_text(text.trim()), s);
    assert_eq!(count_content_lines(text.trim()), count_content_lines(text));
}

#[test]
fn ascii_tokenize_is_idempotent() {
    let text = "Hello, World! 42 apples; 42 APPLES";
    let tokens = tokenize(text);
    assert_eq!(tokens, vec!["hello", "world", "42", "apples", "42", "apples"]);
    assert_eq!(tokenize(&tokens.join(" ")), tokens);
}
