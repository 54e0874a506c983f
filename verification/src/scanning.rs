//! The mathematical model of the scan: character classes, the reserved
//! words, maximal-munch lexeme boundaries, and the token sequence that a
//! given input denotes. The executable scanner in `lexer` is proved to
//! return exactly `spec_tokenize` of its input.

use vstd::prelude::*;

use crate::token::{SpecToken, TokenType};

verus! {

/// Whitespace: space, tab, newline, carriage return. Skipped, never
/// part of a token.
pub open spec fn is_whitespace_char(c: char) -> bool {
    c == ' ' || c == '\t' || c == '\n' || c == '\r'
}

/// An ASCII letter. Words (keywords and identifiers) start with one.
pub open spec fn is_alpha_char(c: char) -> bool {
    ('a' <= c && c <= 'z') || ('A' <= c && c <= 'Z')
}

/// An ASCII decimal digit. Number literals start with one.
pub open spec fn is_digit_char(c: char) -> bool {
    '0' <= c && c <= '9'
}

/// An ASCII letter or digit: the characters a word may contain after
/// its first letter. There is no underscore in this language.
pub open spec fn is_alphanum_char(c: char) -> bool {
    is_alpha_char(c) || is_digit_char(c)
}

/// A character that starts an operator. Each may be followed by `=` to
/// form a two-character compound operator.
pub open spec fn is_operator_char(c: char) -> bool {
    c == '+' || c == '-' || c == '*' || c == '/' || c == '=' || c == '!' || c == '<' || c == '>'
}

/// A punctuator: always a single-character token.
pub open spec fn is_punctuator_char(c: char) -> bool {
    c == '(' || c == ')' || c == '{' || c == '}' || c == ';'
}

/// The reserved words of the language. A word token whose lexeme is one
/// of these is a `Keyword`; any other word is an `Identifier`.
pub open spec fn is_keyword_text(s: Seq<char>) -> bool {
    ||| s == "hindsa"@
    ||| s == "asharia"@
    ||| s == "agar"@
    ||| s == "phir"@
    ||| s == "lekinagar"@
    ||| s == "jabtk"@
    ||| s == "niklo"@
    ||| s == "wapsi"@
    ||| s == "irshaad"@
    ||| s == "chalooo"@
}

/// The first position at or after `i` that is not an ASCII alphanumeric
/// character: where a word that is being scanned at `i` ends.
pub open spec fn word_end(s: Seq<char>, i: int) -> int
    decreases s.len() - i,
{
    if 0 <= i < s.len() && is_alphanum_char(s[i]) {
        word_end(s, i + 1)
    } else {
        i
    }
}

/// Where a number literal being scanned at `i` ends, given whether a
/// decimal point has already been consumed: digits always continue the
/// literal, and the first `.` does, but a second `.` ends it.
pub open spec fn number_end(s: Seq<char>, i: int, has_decimal: bool) -> int
    decreases s.len() - i,
{
    if 0 <= i < s.len() {
        if s[i] == '.' {
            if has_decimal {
                i
            } else {
                number_end(s, i + 1, true)
            }
        } else if is_digit_char(s[i]) {
            number_end(s, i + 1, has_decimal)
        } else {
            i
        }
    } else {
        i
    }
}

/// Where an operator token starting at `i` ends: after two characters
/// when the next character is `=`, after one otherwise.
pub open spec fn operator_end(s: Seq<char>, i: int) -> int {
    if i + 1 < s.len() && s[i + 1] == '=' {
        i + 2
    } else {
        i + 1
    }
}

/// Whether the characters of `s` include a decimal point: decides
/// `FloatLiteral` versus `IntegerLiteral` for a number lexeme.
pub open spec fn has_dot(s: Seq<char>) -> bool {
    exists|k: int| 0 <= k < s.len() && s[k] == '.'
}

/// The kind of a word token: `Keyword` on an exact match against the
/// reserved words, `Identifier` otherwise.
pub open spec fn word_kind(text: Seq<char>) -> TokenType {
    if is_keyword_text(text) {
        TokenType::Keyword
    } else {
        TokenType::Identifier
    }
}

/// The kind of a number token: `FloatLiteral` when the lexeme contains
/// a decimal point, `IntegerLiteral` otherwise.
pub open spec fn number_kind(text: Seq<char>) -> TokenType {
    if has_dot(text) {
        TokenType::FloatLiteral
    } else {
        TokenType::IntegerLiteral
    }
}

/// The number of newline characters in `s[i..j]`: how much the line
/// counter grows while those characters are consumed.
pub open spec fn newline_count(s: Seq<char>, i: int, j: int) -> int
    decreases j - i,
{
    if i < j {
        newline_count(s, i, j - 1) + if s[j - 1] == '\n' {
            1int
        } else {
            0int
        }
    } else {
        0
    }
}

/// The token sequence that scanning `s` from position `i` on line
/// `line` produces. Per step, first match wins: whitespace is skipped
/// (a newline bumps the line counter), a letter starts a maximal-munch
/// word, a digit a maximal-munch number with at most one decimal point,
/// an operator character takes a following `=` greedily, a punctuator
/// is one character, and any other character is one `Unknown` token.
pub open spec fn spec_tokenize(s: Seq<char>, i: int, line: nat) -> Seq<SpecToken>
    decreases s.len() - i,
{
    if 0 <= i < s.len() {
        let c = s[i];
        if is_whitespace_char(c) {
            spec_tokenize(s, i + 1, if c == '\n' { (line + 1) as nat } else { line })
        } else if is_alpha_char(c) {
            let j = word_end(s, i);
            proof {
                lemma_word_end_bounds(s, i);
            }
            seq![SpecToken { kind: word_kind(s.subrange(i, j)), text: s.subrange(i, j), line }]
                + spec_tokenize(s, j, line)
        } else if is_digit_char(c) {
            let j = number_end(s, i, false);
            proof {
                lemma_number_end_bounds(s, i, false);
            }
            seq![SpecToken { kind: number_kind(s.subrange(i, j)), text: s.subrange(i, j), line }]
                + spec_tokenize(s, j, line)
        } else if is_operator_char(c) {
            let j = operator_end(s, i);
            seq![SpecToken { kind: TokenType::Operator, text: s.subrange(i, j), line }]
                + spec_tokenize(s, j, line)
        } else if is_punctuator_char(c) {
            seq![SpecToken { kind: TokenType::Punctuator, text: s.subrange(i, i + 1), line }]
                + spec_tokenize(s, i + 1, line)
        } else {
            seq![SpecToken { kind: TokenType::Unknown, text: s.subrange(i, i + 1), line }]
                + spec_tokenize(s, i + 1, line)
        }
    } else {
        Seq::empty()
    }
}

/// A word's end lies between its start and the end of the input; every
/// character before it is alphanumeric, and the character at it (when
/// one exists) is not.
pub proof fn lemma_word_end_bounds(s: Seq<char>, i: int)
    requires
        0 <= i <= s.len(),
    ensures
        i <= word_end(s, i) <= s.len(),
        forall|m: int| i <= m < word_end(s, i) ==> is_alphanum_char(#[trigger] s[m]),
        word_end(s, i) < s.len() ==> !is_alphanum_char(s[word_end(s, i)]),
        i < s.len() && is_alphanum_char(s[i]) ==> word_end(s, i) > i,
    decreases s.len() - i,
{
    if i < s.len() && is_alphanum_char(s[i]) {
        lemma_word_end_bounds(s, i + 1);
    }
}

/// A number's end lies between its start and the end of the input, and
/// every character before it is a digit or a decimal point.
pub proof fn lemma_number_end_bounds(s: Seq<char>, i: int, has_decimal: bool)
    requires
        0 <= i <= s.len(),
    ensures
        i <= number_end(s, i, has_decimal) <= s.len(),
        forall|m: int|
            i <= m < number_end(s, i, has_decimal) ==> (is_digit_char(#[trigger] s[m]) || s[m]
                == '.'),
        i < s.len() && is_digit_char(s[i]) ==> number_end(s, i, has_decimal) > i,
    decreases s.len() - i,
{
    if i < s.len() {
        if s[i] == '.' && !has_decimal {
            lemma_number_end_bounds(s, i + 1, true);
        } else if is_digit_char(s[i]) {
            lemma_number_end_bounds(s, i + 1, has_decimal);
        }
    }
}

/// At most one newline per character: the newline count over a range is
/// bounded by the range's width.
pub proof fn lemma_newline_count_bound(s: Seq<char>, i: int, j: int)
    requires
        i <= j,
    ensures
        0 <= newline_count(s, i, j) <= j - i,
    decreases j - i,
{
    if i < j {
        lemma_newline_count_bound(s, i, j - 1);
    }
}

/// Extending a range by characters none of which is a newline leaves
/// its newline count unchanged.
pub proof fn lemma_newline_count_skip(s: Seq<char>, i: int, k: int, j: int)
    requires
        i <= k <= j,
        forall|m: int| k <= m < j ==> #[trigger] s[m] != '\n',
    ensures
        newline_count(s, i, j) == newline_count(s, i, k),
    decreases j - k,
{
    if k < j {
        lemma_newline_count_skip(s, i, k, j - 1);
    }
}

} // verus!
