//! Tokens produced by the scanner.

use vstd::prelude::*;

verus! {

/// Classification of a token. Every consumed character sequence maps to
/// exactly one of these kinds.
#[derive(Clone, Copy, Debug, PartialEq, Eq, Structural)]
pub enum TokenType {
    Keyword,
    Identifier,
    IntegerLiteral,
    FloatLiteral,
    Operator,
    Punctuator,
    Unknown,
}

/// Mathematical model of a token: its kind, the exact characters of its
/// lexeme, and the 1-based source line on which the lexeme started.
pub ghost struct SpecToken {
    pub kind: TokenType,
    pub text: Seq<char>,
    pub line: nat,
}

/// A token: the classification, the exact substring consumed, and the
/// 1-based source line where the token started. Immutable after creation.
pub struct Token {
    pub token_type: TokenType,
    pub value: String,
    pub line: usize,
}

impl View for Token {
    type V = SpecToken;

    open spec fn view(&self) -> SpecToken {
        SpecToken { kind: self.token_type, text: self.value@, line: self.line as nat }
    }
}

impl Token {
    pub fn new(token_type: TokenType, value: String, line: usize) -> (t: Token)
        ensures
            t.token_type == token_type,
            t.value == value,
            t.line == line,
    {
        Token { token_type, value, line }
    }
}

/// The display name of each token kind.
pub open spec fn token_type_name(t: TokenType) -> Seq<char> {
    match t {
        TokenType::Keyword => "KEYWORD"@,
        TokenType::Identifier => "IDENTIFIER"@,
        TokenType::IntegerLiteral => "INTEGER_LITERAL"@,
        TokenType::FloatLiteral => "FLOAT_LITERAL"@,
        TokenType::Operator => "OPERATOR"@,
        TokenType::Punctuator => "PUNCTUATOR"@,
        TokenType::Unknown => "UNKNOWN"@,
    }
}

pub fn get_token_type_name(token_type: &TokenType) -> (name: &str)
    ensures
        name@ == token_type_name(*token_type),
{
    match token_type {
        TokenType::Keyword => "KEYWORD",
        TokenType::Identifier => "IDENTIFIER",
        TokenType::IntegerLiteral => "INTEGER_LITERAL",
        TokenType::FloatLiteral => "FLOAT_LITERAL",
        TokenType::Operator => "OPERATOR",
        TokenType::Punctuator => "PUNCTUATOR",
        TokenType::Unknown => "UNKNOWN",
    }
}

} // verus!
