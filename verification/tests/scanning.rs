use lox_tree_walk::error::Error;
use lox_tree_walk::token::{scan, Token, TokenLit, TokenType};

fn types_of(tokens: &[Token]) -> Vec<TokenType> {
    tokens.iter().map(|t| t.ty).collect()
}

#[test]
fn scan_simple_sum_ends_in_eof() {
    let tokens = scan("1+2").unwrap();
    assert_eq!(
        types_of(&tokens),
        vec![TokenType::Number, TokenType::Plus, TokenType::Number, TokenType::Eof]
    );
    assert_eq!(tokens[0].literal, Some(TokenLit::Num(1.0f64.to_bits())));
    assert_eq!(tokens[2].literal, Some(TokenLit::Num(2.0f64.to_bits())));
    assert_eq!(tokens[0].lexeme, "1");
    assert_eq!(tokens.last().unwrap().ty, TokenType::Eof);
}

#[test]
fn scan_empty_source_is_just_eof() {
    let tokens = scan("").unwrap();
    assert_eq!(types_of(&tokens), vec![TokenType::Eof]);
}

#[test]
fn scan_decimal_number() {
    let tokens = scan("3.14").unwrap();
    assert_eq!(tokens[0].ty, TokenType::Number);
    assert_eq!(tokens[0].lexeme, "3.14");
    assert_eq!(tokens[0].literal, Some(TokenLit::Num(3.14f64.to_bits())));
    assert_eq!(types_of(&tokens), vec![TokenType::Number, TokenType::Eof]);
}

#[test]
fn scan_dot_without_fraction_is_separate() {
    let tokens = scan("3.foo").unwrap();
    assert_eq!(
        types_of(&tokens),
        vec![TokenType::Number, TokenType::Dot, TokenType::Identifier, TokenType::Eof]
    );
}

#[test]
fn scan_maximal_munch_operators() {
    let tokens = scan("<= < == = != ! >= >").unwrap();
    assert_eq!(
        types_of(&tokens),
        vec![
            TokenType::LessEqual,
            TokenType::Less,
            TokenType::EqualEqual,
            TokenType::Equal,
            TokenType::BangEqual,
            TokenType::Bang,
            TokenType::GreaterEqual,
            TokenType::Greater,
            TokenType::Eof
        ]
    );
}

#[test]
fn scan_comment_runs_to_end_of_line() {
    let tokens = scan("1 // this is ignored ())\n2").unwrap();
    assert_eq!(
        types_of(&tokens),
        vec![TokenType::Number, TokenType::Number, TokenType::Eof]
    );
    assert_eq!(tokens[0].line, 1);
    assert_eq!(tokens[1].line, 2);
}

#[test]
fn scan_slash_alone_is_division() {
    let tokens = scan("6/2").unwrap();
    assert_eq!(
        types_of(&tokens),
        vec![TokenType::Number, TokenType::Slash, TokenType::Number, TokenType::Eof]
    );
}

#[test]
fn scan_keywords_and_identifiers() {
    let tokens = scan("var x = while_ fun fund true").unwrap();
    assert_eq!(
        types_of(&tokens),
        vec![
            TokenType::Var,
            TokenType::Identifier,
            TokenType::Equal,
            TokenType::Identifier,
            TokenType::Fun,
            TokenType::Identifier,
            TokenType::True,
            TokenType::Eof
        ]
    );
    assert_eq!(tokens[1].lexeme, "x");
    assert_eq!(tokens[3].lexeme, "while_");
    assert_eq!(tokens[5].lexeme, "fund");
}

#[test]
fn scan_all_keywords() {
    let src = "and class else false fun for if nil or print return super this true var while break";
    let tokens = scan(src).unwrap();
    assert_eq!(
        types_of(&tokens),
        vec![
            TokenType::And,
            TokenType::Class,
            TokenType::Else,
            TokenType::False,
            TokenType::Fun,
            TokenType::For,
            TokenType::If,
            TokenType::Nil,
            TokenType::Or,
            TokenType::Print,
            TokenType::Return,
            TokenType::Super,
            TokenType::This,
            TokenType::True,
            TokenType::Var,
            TokenType::While,
            TokenType::Break,
            TokenType::Eof
        ]
    );
}

#[test]
fn scan_string_literal_excludes_delimiters() {
    let tokens = scan("\"hello world\"").unwrap();
    assert_eq!(tokens[0].ty, TokenType::QuotedString);
    assert_eq!(tokens[0].literal, Some(TokenLit::Str("hello world".to_string())));
    assert_eq!(tokens[0].lexeme, "hello world");
}

#[test]
fn scan_unterminated_string_is_an_error() {
    let err = scan("\"oops").unwrap_err();
    assert!(matches!(err, Error::UnterminatedString { .. }));
}

#[test]
fn scan_unexpected_character_is_an_error() {
    let err = scan("1 # 2").unwrap_err();
    match err {
        Error::UnexpectedCharacter { line, .. } => assert_eq!(line, 1),
        other => panic!("wrong error: {:?}", other),
    }
}

#[test]
fn scan_reports_error_but_still_reads_rest() {
    // Scanning continues past the bad character; only the first error is
    // reported, from the whole text.
    let err = scan("# ~").unwrap_err();
    assert!(matches!(err, Error::UnexpectedCharacter { .. }));
}

#[test]
fn scan_newlines_advance_line_numbers() {
    let tokens = scan("1\n2\n\n3").unwrap();
    assert_eq!(tokens[0].line, 1);
    assert_eq!(tokens[1].line, 2);
    assert_eq!(tokens[2].line, 4);
}

#[test]
fn scan_string_spanning_lines_counts_them() {
    let tokens = scan("\"a\nb\" x").unwrap();
    assert_eq!(tokens[0].ty, TokenType::QuotedString);
    assert_eq!(tokens[0].literal, Some(TokenLit::Str("a\nb".to_string())));
    assert_eq!(tokens[1].ty, TokenType::Identifier);
    assert_eq!(tokens[1].line, 2);
}

#[test]
fn generate_token_builds_bare_token() {
    let t = Token::generate_token(TokenType::Eof, 7);
    assert_eq!(t.ty, TokenType::Eof);
    assert_eq!(t.line, 7);
    assert_eq!(t.lexeme, "");
    assert_eq!(t.literal, None);
}

#[test]
fn identifiers_may_start_with_any_alphabetic_character() {
    let tokens = scan("ñandú").unwrap();
    // The start character is any alphabetic; the run continues with ASCII
    // letters and underscores only.
    assert_eq!(tokens[0].ty, TokenType::Identifier);
    assert_eq!(tokens[0].lexeme, "ñand");
    assert_eq!(tokens[1].ty, TokenType::Identifier);
    assert_eq!(tokens[1].lexeme, "ú");
}
