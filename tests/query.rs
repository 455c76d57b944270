use pdfgreper::query::{eval_expr, parse_bool_query, parse_tokens, tokenize, word_token, Expr, ParseError, Token};

fn matches_text(query: &str, text: &str) -> bool {
    let e = parse_bool_query(query).expect("query compiles");
    eval_expr(&e, &text.to_lowercase())
}

fn word(t: &Token) -> Option<&str> {
    match t {
        Token::Word(w) => Some(w.as_str()),
        _ => None,
    }
}

#[test]
fn tokenize_splits_and_folds() {
    let t = tokenize("(Ache OR acetylcholinesterase) AND earthworm");
    assert_eq!(t.len(), 7);
    assert!(matches!(t[0], Token::LParen));
    assert_eq!(word(&t[1]), Some("ache"));
    assert!(matches!(t[2], Token::Or));
    assert_eq!(word(&t[3]), Some("acetylcholinesterase"));
    assert!(matches!(t[4], Token::RParen));
    assert!(matches!(t[5], Token::And));
    assert_eq!(word(&t[6]), Some("earthworm"));
}

#[test]
fn tokenize_parens_flush_terms() {
    let t = tokenize("a(b)c");
    assert_eq!(t.len(), 5);
    assert_eq!(word(&t[0]), Some("a"));
    assert!(matches!(t[1], Token::LParen));
    assert_eq!(word(&t[2]), Some("b"));
    assert!(matches!(t[3], Token::RParen));
    assert_eq!(word(&t[4]), Some("c"));
}

#[test]
fn tokenize_whitespace_kinds() {
    let t = tokenize("  a\tb\nc  ");
    assert_eq!(t.len(), 3);
    assert_eq!(word(&t[2]), Some("c"));
}

#[test]
fn tokenize_quoted_phrase_keeps_spaces() {
    let t = tokenize("\"Foo  Bar\" x");
    assert_eq!(t.len(), 2);
    assert_eq!(word(&t[0]), Some("foo  bar"));
    assert_eq!(word(&t[1]), Some("x"));
}

#[test]
fn tokenize_unterminated_quote_runs_to_end() {
    let t = tokenize("a \"b c");
    assert_eq!(t.len(), 2);
    assert_eq!(word(&t[1]), Some("b c"));
}

#[test]
fn tokenize_empty_quotes_yield_nothing() {
    assert_eq!(tokenize("\"\"").len(), 0);
    assert_eq!(tokenize("").len(), 0);
}

#[test]
fn tokenize_keywords_any_case_even_quoted() {
    let t = tokenize("AnD oR \"and\" andy");
    assert_eq!(t.len(), 4);
    assert!(matches!(t[0], Token::And));
    assert!(matches!(t[1], Token::Or));
    assert!(matches!(t[2], Token::And));
    assert_eq!(word(&t[3]), Some("andy"));
}

#[test]
fn word_token_classifies() {
    assert!(matches!(word_token("and".to_string()), Token::And));
    assert!(matches!(word_token("OR".to_string()), Token::Or));
    assert_eq!(word(&word_token("ore".to_string())), Some("ore"));
}

#[test]
fn parse_builds_left_assoc_tree() {
    let e = parse_bool_query("a and b and c").unwrap();
    match e {
        Expr::And(l, r) => {
            assert!(matches!(*l, Expr::And(_, _)));
            assert!(matches!(*r, Expr::Term(ref t) if t == "c"));
        }
        _ => panic!("expected a conjunction"),
    }
}

#[test]
fn or_binds_weaker_than_and() {
    assert!(matches_text("a or b and c", "a"));
    assert!(!matches_text("a or b and c", "c"));
    assert!(matches_text("a or b and c", "b c"));
}

#[test]
fn parentheses_change_meaning() {
    assert!(matches_text("(a or b) and c", "a c"));
    assert!(!matches_text("(a or b) and c", "a"));
    assert!(matches_text("(a or b) and c", "b c"));
}

#[test]
fn quoted_phrase_is_one_term() {
    assert!(matches_text("\"foo bar\"", "xx foo bar yy"));
    assert!(!matches_text("\"foo bar\"", "foo"));
    assert!(!matches_text("\"foo bar\"", "bar"));
}

#[test]
fn matching_is_case_insensitive() {
    assert!(matches_text("Ache", "ache"));
    assert!(matches_text("Ache", "ACHE"));
    assert!(matches_text("Ache", "AchE"));
    assert!(!matches_text("Ache", "ach"));
}

#[test]
fn malformed_queries_fail() {
    assert_eq!(parse_bool_query("(a and b").unwrap_err(), ParseError::MissingCloseParen);
    assert_eq!(parse_bool_query("a and").unwrap_err(), ParseError::UnexpectedEnd);
    assert_eq!(parse_bool_query("and a").unwrap_err(), ParseError::UnexpectedToken);
    assert_eq!(parse_bool_query("").unwrap_err(), ParseError::UnexpectedEnd);
    assert_eq!(parse_bool_query("(a b)").unwrap_err(), ParseError::ExpectedCloseParen);
    assert_eq!(parse_bool_query("a b").unwrap_err(), ParseError::TrailingTokens(1));
    assert_eq!(parse_bool_query("a )").unwrap_err(), ParseError::TrailingTokens(1));
}

#[test]
fn parse_tokens_on_given_tokens() {
    let toks = vec![Token::Word("x".to_string()), Token::Or, Token::Word("y".to_string())];
    let e = parse_tokens(&toks).unwrap();
    assert!(matches!(e, Expr::Or(_, _)));
    assert!(eval_expr(&e, "only y here"));
    assert!(!eval_expr(&e, "nothing"));
}

#[test]
fn evaluation_is_repeatable() {
    let e = parse_bool_query("(ache or acetylcholinesterase) and earthworm").unwrap();
    let text = "effects of ache on the earthworm";
    let first = eval_expr(&e, text);
    let second = eval_expr(&e, text);
    assert!(first);
    assert_eq!(first, second);
    let other = "no match";
    assert_eq!(eval_expr(&e, other), eval_expr(&e, other));
    assert!(!eval_expr(&e, other));
}

#[test]
fn term_is_plain_substring() {
    assert!(matches_text("worm", "earthworms"));
    assert!(matches_text("\"h w\"", "earth worms"));
}
