use urdu_lexer::lexer::LexicalAnalyzer;
use urdu_lexer::token::{get_token_type_name, Token, TokenType};

fn scan(source: &str) -> Vec<Token> {
    let mut lexer = LexicalAnalyzer::new(source.to_string());
    lexer.tokenize()
}

fn kinds(tokens: &[Token]) -> Vec<TokenType> {
    tokens.iter().map(|t| t.token_type).collect()
}

fn lexemes(tokens: &[Token]) -> Vec<String> {
    tokens.iter().map(|t| t.value.clone()).collect()
}

#[test]
fn empty_input_yields_no_tokens() {
    assert!(scan("").is_empty());
}

#[test]
fn whitespace_only_yields_no_tokens() {
    assert!(scan("  \t\r\n  \n").is_empty());
}

#[test]
fn totality_covers_arbitrary_input() {
    // Every character is either skipped whitespace or part of exactly
    // one lexeme, even for input full of unrecognized characters.
    let source = "@#x 1.2$ ~agar\n?";
    let tokens = scan(source);
    let consumed: usize = tokens.iter().map(|t| t.value.len()).sum();
    let whitespace = source.chars().filter(|c| c.is_ascii_whitespace()).count();
    assert_eq!(consumed + whitespace, source.len());
}

#[test]
fn all_ten_keywords_are_recognized() {
    for kw in [
        "hindsa", "asharia", "agar", "phir", "lekinagar", "jabtk", "niklo", "wapsi", "irshaad",
        "chalooo",
    ] {
        let tokens = scan(kw);
        assert_eq!(tokens.len(), 1);
        assert_eq!(tokens[0].token_type, TokenType::Keyword);
        assert_eq!(tokens[0].value, kw);
    }
}

#[test]
fn keyword_match_is_exact_not_prefix() {
    let tokens = scan("agarx");
    assert_eq!(tokens.len(), 1);
    assert_eq!(tokens[0].token_type, TokenType::Identifier);
    assert_eq!(tokens[0].value, "agarx");
}

#[test]
fn keyword_match_is_case_sensitive() {
    let tokens = scan("Agar");
    assert_eq!(tokens.len(), 1);
    assert_eq!(tokens[0].token_type, TokenType::Identifier);
}

#[test]
fn digit_start_splits_from_following_letters() {
    let tokens = scan("12abc");
    assert_eq!(
        kinds(&tokens),
        vec![TokenType::IntegerLiteral, TokenType::Identifier]
    );
    assert_eq!(lexemes(&tokens), vec!["12", "abc"]);
}

#[test]
fn word_may_contain_digits_after_letter() {
    let tokens = scan("x1y2");
    assert_eq!(tokens.len(), 1);
    assert_eq!(tokens[0].token_type, TokenType::Identifier);
    assert_eq!(tokens[0].value, "x1y2");
}

#[test]
fn compound_operator_is_one_token() {
    let tokens = scan("==");
    assert_eq!(tokens.len(), 1);
    assert_eq!(tokens[0].token_type, TokenType::Operator);
    assert_eq!(tokens[0].value, "==");
}

#[test]
fn lone_equals_is_single_operator() {
    let tokens = scan("=");
    assert_eq!(tokens.len(), 1);
    assert_eq!(tokens[0].token_type, TokenType::Operator);
    assert_eq!(tokens[0].value, "=");
}

#[test]
fn every_operator_char_takes_following_equals() {
    for op in ["+", "-", "*", "/", "=", "!", "<", ">"] {
        let compound = format!("{}=", op);
        let tokens = scan(&compound);
        assert_eq!(tokens.len(), 1, "scanning {:?}", compound);
        assert_eq!(tokens[0].token_type, TokenType::Operator);
        assert_eq!(tokens[0].value, compound);
    }
}

#[test]
fn three_equals_split_compound_then_single() {
    let tokens = scan("===");
    assert_eq!(lexemes(&tokens), vec!["==", "="]);
    assert_eq!(kinds(&tokens), vec![TokenType::Operator, TokenType::Operator]);
}

#[test]
fn float_with_second_dot_stops_at_it() {
    let tokens = scan("3.14.5");
    assert_eq!(
        kinds(&tokens),
        vec![
            TokenType::FloatLiteral,
            TokenType::Unknown,
            TokenType::IntegerLiteral
        ]
    );
    assert_eq!(lexemes(&tokens), vec!["3.14", ".", "5"]);
}

#[test]
fn trailing_dot_is_a_valid_float_lexeme() {
    let tokens = scan("12.");
    assert_eq!(tokens.len(), 1);
    assert_eq!(tokens[0].token_type, TokenType::FloatLiteral);
    assert_eq!(tokens[0].value, "12.");
}

#[test]
fn integer_without_dot_is_integer_literal() {
    let tokens = scan("10");
    assert_eq!(tokens.len(), 1);
    assert_eq!(tokens[0].token_type, TokenType::IntegerLiteral);
    assert_eq!(tokens[0].value, "10");
}

#[test]
fn newline_advances_reported_line() {
    let tokens = scan("agar\nphir");
    assert_eq!(tokens.len(), 2);
    assert_eq!(tokens[0].value, "agar");
    assert_eq!(tokens[0].line, 1);
    assert_eq!(tokens[1].value, "phir");
    assert_eq!(tokens[1].line, 2);
}

#[test]
fn token_lines_never_decrease() {
    let tokens = scan("a\nb\n\nc d\ne");
    let lines: Vec<usize> = tokens.iter().map(|t| t.line).collect();
    assert_eq!(lines, vec![1, 2, 4, 4, 5]);
}

#[test]
fn whitespace_is_transparent() {
    let tokens = scan("  x   =  1  ");
    assert_eq!(
        kinds(&tokens),
        vec![
            TokenType::Identifier,
            TokenType::Operator,
            TokenType::IntegerLiteral
        ]
    );
    assert_eq!(lexemes(&tokens), vec!["x", "=", "1"]);
}

#[test]
fn unrecognized_characters_become_unknown_tokens() {
    let tokens = scan("@ . ,");
    assert_eq!(
        kinds(&tokens),
        vec![TokenType::Unknown, TokenType::Unknown, TokenType::Unknown]
    );
    assert_eq!(lexemes(&tokens), vec!["@", ".", ","]);
}

#[test]
fn punctuators_are_single_characters() {
    let tokens = scan("(){};");
    assert_eq!(tokens.len(), 5);
    for token in &tokens {
        assert_eq!(token.token_type, TokenType::Punctuator);
        assert_eq!(token.value.len(), 1);
    }
    assert_eq!(lexemes(&tokens), vec!["(", ")", "{", "}", ";"]);
}

#[test]
fn end_to_end_statement_sequence() {
    let tokens = scan("hindsa x = 10; asharia y = 20.5; agar (x > y) { niklo; }");
    let expected = vec![
        TokenType::Keyword,
        TokenType::Identifier,
        TokenType::Operator,
        TokenType::IntegerLiteral,
        TokenType::Punctuator,
        TokenType::Keyword,
        TokenType::Identifier,
        TokenType::Operator,
        TokenType::FloatLiteral,
        TokenType::Punctuator,
        TokenType::Keyword,
        TokenType::Punctuator,
        TokenType::Identifier,
        TokenType::Operator,
        TokenType::Identifier,
        TokenType::Punctuator,
        TokenType::Punctuator,
        TokenType::Keyword,
        TokenType::Punctuator,
        TokenType::Punctuator,
    ];
    assert_eq!(kinds(&tokens), expected);
}

#[test]
fn token_new_stores_its_fields() {
    let token = Token::new(TokenType::Keyword, "agar".to_string(), 7);
    assert_eq!(token.token_type, TokenType::Keyword);
    assert_eq!(token.value, "agar");
    assert_eq!(token.line, 7);
}

#[test]
fn token_type_names_match_each_kind() {
    assert_eq!(get_token_type_name(&TokenType::Keyword), "KEYWORD");
    assert_eq!(get_token_type_name(&TokenType::Identifier), "IDENTIFIER");
    assert_eq!(
        get_token_type_name(&TokenType::IntegerLiteral),
        "INTEGER_LITERAL"
    );
    assert_eq!(get_token_type_name(&TokenType::FloatLiteral), "FLOAT_LITERAL");
    assert_eq!(get_token_type_name(&TokenType::Operator), "OPERATOR");
    assert_eq!(get_token_type_name(&TokenType::Punctuator), "PUNCTUATOR");
    assert_eq!(get_token_type_name(&TokenType::Unknown), "UNKNOWN");
}

#[test]
fn scanner_is_reusable_only_from_a_fresh_instance() {
    // After a full scan the cursor sits at the end of the input, so a
    // second call finds nothing more to consume.
    let mut lexer = LexicalAnalyzer::new("agar x".to_string());
    let first = lexer.tokenize();
    assert_eq!(first.len(), 2);
    let second = lexer.tokenize();
    assert!(second.is_empty());
}
