use coloratura::util::Args;

fn tokens(s: &str) -> Vec<String> {
    let mut args = Args::new(s);
    let mut out = Vec::new();
    while let Some(t) = args.next() {
        out.push(t);
    }
    out
}

#[test]
fn empty_text_has_no_tokens() {
    assert!(tokens("").is_empty());
}

#[test]
fn whitespace_text_has_no_tokens() {
    assert!(tokens("   ").is_empty());
    assert!(tokens(" \t\n ").is_empty());
}

#[test]
fn plain_words() {
    assert_eq!(tokens("color set ff0000"), vec!["color", "set", "ff0000"]);
}

#[test]
fn quoted_segment_is_one_token() {
    assert_eq!(tokens("say \"hello world\""), vec!["say", "hello world"]);
}

#[test]
fn escaped_quotes_in_quoted_segment() {
    assert_eq!(
        tokens("say \"he said \\\"hi\\\"\""),
        vec!["say", "he said \"hi\""]
    );
}

#[test]
fn unterminated_quote_runs_to_end() {
    assert_eq!(tokens("say \"unterminated"), vec!["say", "unterminated"]);
}

#[test]
fn lone_quote_is_empty_token() {
    assert_eq!(tokens("\""), vec![""]);
    assert_eq!(tokens("a \""), vec!["a", ""]);
}

#[test]
fn consecutive_quoted_segments() {
    assert_eq!(tokens("\"a b\" \"c d\""), vec!["a b", "c d"]);
}

#[test]
fn quote_inside_word_is_plain() {
    assert_eq!(tokens("ab\"c d"), vec!["ab\"c", "d"]);
}

#[test]
fn escaped_backslash_and_other_escape() {
    assert_eq!(tokens("\"a\\\\b\""), vec!["a\\b"]);
    assert_eq!(tokens("\"a\\nb\""), vec!["a\\nb"]);
}

#[test]
fn leading_and_repeated_whitespace() {
    assert_eq!(tokens("  a   b  "), vec!["a", "b"]);
}

#[test]
fn tab_does_not_split_a_word() {
    assert_eq!(tokens("a\tb c"), vec!["a\tb", "c"]);
}

#[test]
fn exhausted_args_stay_exhausted() {
    let mut args = Args::new("x");
    assert_eq!(args.next(), Some("x".to_string()));
    assert_eq!(args.next(), None);
    assert_eq!(args.next(), None);
}
