use glob_matcher::ParseError;
use glob_matcher::Parser;
use glob_matcher::TokenType;
use glob_matcher::compile;

#[test]
fn unterminated_group_fails() {
    assert!(matches!(compile("[a"), Err(ParseError::UnterminatedGroup)));
    assert!(matches!(compile("["), Err(ParseError::UnterminatedGroup)));
    assert!(matches!(compile("[ab"), Err(ParseError::UnterminatedGroup)));
}

#[test]
fn unterminated_range_fails() {
    assert!(matches!(compile("[a-"), Err(ParseError::UnterminatedRange)));
}

#[test]
fn range_without_closing_bracket_fails() {
    assert!(matches!(compile("[a-b"), Err(ParseError::ExpectedClosingBracket)));
    assert!(matches!(compile("[a-bc"), Err(ParseError::ExpectedClosingBracket)));
}

#[test]
fn non_alphanumeric_group_start_fails() {
    assert!(matches!(compile("[!]"), Err(ParseError::ExpectedAlphanumeric)));
}

#[test]
fn non_alphanumeric_range_end_fails() {
    assert!(matches!(compile("[a-!]"), Err(ParseError::ExpectedAlphanumeric)));
}

#[test]
fn bare_non_alphanumeric_fails() {
    assert!(matches!(compile("!"), Err(ParseError::ExpectedAlphanumeric)));
    assert!(matches!(compile("ab!c"), Err(ParseError::ExpectedAlphanumeric)));
}

#[test]
fn range_group_holds_the_full_inclusive_range() {
    let tokens = compile("[a-c]").expect("range group should compile");
    assert_eq!(tokens.len(), 2);
    assert_eq!(tokens[0].token_type, TokenType::Group);
    assert_eq!(tokens[0].value, '-');
    assert_eq!(tokens[0].group_values, vec!['a', 'b', 'c']);
    assert_eq!(tokens[1].token_type, TokenType::Empty);
}

#[test]
fn reversed_range_is_empty() {
    let tokens = compile("[c-a]").expect("reversed range should still compile");
    assert_eq!(tokens[0].token_type, TokenType::Group);
    assert!(tokens[0].group_values.is_empty());
}

#[test]
fn enumeration_group_keeps_order_duplicates_and_symbols() {
    let tokens = compile("[aab!]").expect("enumeration group should compile");
    assert_eq!(tokens.len(), 2);
    assert_eq!(tokens[0].token_type, TokenType::Group);
    assert_eq!(tokens[0].group_values, vec!['a', 'a', 'b', '!']);
}

#[test]
fn wildcards_and_literals_tokenize_in_order() {
    let tokens = compile("s*m?e").expect("pattern should compile");
    let types: Vec<TokenType> = tokens.iter().map(|t| t.token_type).collect();
    assert_eq!(
        types,
        vec![
            TokenType::Unicode,
            TokenType::Any,
            TokenType::Unicode,
            TokenType::Single,
            TokenType::Unicode,
            TokenType::Empty,
        ]
    );
    assert_eq!(tokens[0].value, 's');
    assert_eq!(tokens[1].value, '*');
    assert_eq!(tokens[2].value, 'm');
    assert_eq!(tokens[3].value, '?');
    assert_eq!(tokens[4].value, 'e');
    assert_eq!(tokens[5].value, '-');
}

#[test]
fn empty_pattern_is_just_the_sentinel() {
    let tokens = compile("").expect("empty pattern should compile");
    assert_eq!(tokens.len(), 1);
    assert_eq!(tokens[0].token_type, TokenType::Empty);
    assert_eq!(tokens[0].value, '-');
    assert!(tokens[0].group_values.is_empty());
}

#[test]
fn parser_keeps_yielding_the_sentinel_at_the_end() {
    let mut p = Parser::new("a*");
    let t = p.Next().expect("literal should tokenize");
    assert_eq!(t.token_type, TokenType::Unicode);
    assert_eq!(t.value, 'a');
    let t = p.Next().expect("star should tokenize");
    assert_eq!(t.token_type, TokenType::Any);
    let t = p.Next().expect("end of pattern should tokenize");
    assert_eq!(t.token_type, TokenType::Empty);
    let t = p.Next().expect("repeated end reads should keep succeeding");
    assert_eq!(t.token_type, TokenType::Empty);
}

#[test]
fn parser_leaves_the_cursor_on_an_error() {
    let mut p = Parser::new("!a");
    assert!(matches!(p.Next(), Err(ParseError::ExpectedAlphanumeric)));
    // The cursor did not move past the bad character, so the same error
    // comes back again.
    assert!(matches!(p.Next(), Err(ParseError::ExpectedAlphanumeric)));
}

#[test]
fn compiling_twice_yields_identical_token_sequences() {
    let once = compile("s*[a-c]x?[mn!]").expect("pattern should compile");
    let twice = compile("s*[a-c]x?[mn!]").expect("pattern should compile");
    assert_eq!(once.len(), twice.len());
    for (a, b) in once.iter().zip(twice.iter()) {
        assert_eq!(a.token_type, b.token_type);
        assert_eq!(a.value, b.value);
        assert_eq!(a.group_values, b.group_values);
    }
}

#[test]
fn greek_range_spans_its_code_points() {
    let tokens = compile("[\u{3b1}-\u{3b3}]").expect("non-ascii range should compile");
    assert_eq!(tokens[0].group_values, vec!['\u{3b1}', '\u{3b2}', '\u{3b3}']);
}
