//! Properties of the scan that hold for every input, proved once and
//! for all against the model in `scanning`.

use vstd::prelude::*;

use crate::lexer::keyword_table_wf;
use crate::scanning::{
    is_alpha_char, is_alphanum_char, is_digit_char, is_operator_char, is_punctuator_char,
    is_whitespace_char, lemma_number_end_bounds,
    lemma_word_end_bounds, number_end, number_kind, operator_end, spec_tokenize, word_end,
    word_kind,
};
use crate::token::{SpecToken, TokenType};

verus! {

/// The total number of characters held by the lexemes of a token
/// sequence.
pub open spec fn total_text_len(toks: Seq<SpecToken>) -> int
    decreases toks.len(),
{
    if toks.len() == 0 {
        0
    } else {
        toks[0].text.len() + total_text_len(toks.drop_first())
    }
}

/// The number of whitespace characters in `s[i..j]`.
pub open spec fn whitespace_count(s: Seq<char>, i: int, j: int) -> int
    decreases j - i,
{
    if i < j {
        (if is_whitespace_char(s[i]) {
            1int
        } else {
            0int
        }) + whitespace_count(s, i + 1, j)
    } else {
        0
    }
}

/// Dropping a prefix that contains no whitespace leaves the whitespace
/// count of a range unchanged.
proof fn lemma_whitespace_count_skip(s: Seq<char>, i: int, k: int, j: int)
    requires
        i <= k <= j,
        forall|m: int| i <= m < k ==> !is_whitespace_char(#[trigger] s[m]),
    ensures
        whitespace_count(s, i, j) == whitespace_count(s, k, j),
    decreases k - i,
{
    if i < k {
        lemma_whitespace_count_skip(s, i + 1, k, j);
    }
}

/// Prepending one token adds exactly its lexeme's length to the total.
proof fn lemma_total_text_len_cons(t: SpecToken, rest: Seq<SpecToken>)
    ensures
        total_text_len(seq![t] + rest) == t.text.len() + total_text_len(rest),
{
    assert((seq![t] + rest).drop_first() =~= rest);
}

/// Totality of the scan: every character of the input is accounted for,
/// either as a skipped whitespace character or as part of exactly one
/// emitted token's lexeme. In particular the scan consumes the whole
/// input, for every input.
pub proof fn lemma_scan_covers_input(s: Seq<char>, i: int, line: nat)
    requires
        0 <= i <= s.len(),
    ensures
        total_text_len(spec_tokenize(s, i, line)) + whitespace_count(s, i, s.len() as int)
            == s.len() - i,
    decreases s.len() - i,
{
    if i < s.len() {
        let c = s[i];
        if is_whitespace_char(c) {
            let line2: nat = if c == '\n' {
                line + 1
            } else {
                line
            };
            lemma_scan_covers_input(s, i + 1, line2);
        } else if is_alpha_char(c) {
            let j = word_end(s, i);
            lemma_word_end_bounds(s, i);
            lemma_scan_covers_input(s, j, line);
            lemma_whitespace_count_skip(s, i, j, s.len() as int);
            lemma_total_text_len_cons(
                SpecToken {
                    kind: word_kind(s.subrange(i, j)),
                    text: s.subrange(i, j),
                    line,
                },
                spec_tokenize(s, j, line),
            );
        } else if is_digit_char(c) {
            let j = number_end(s, i, false);
            lemma_number_end_bounds(s, i, false);
            lemma_scan_covers_input(s, j, line);
            lemma_whitespace_count_skip(s, i, j, s.len() as int);
            lemma_total_text_len_cons(
                SpecToken {
                    kind: number_kind(s.subrange(i, j)),
                    text: s.subrange(i, j),
                    line,
                },
                spec_tokenize(s, j, line),
            );
        } else if is_operator_char(c) {
            let j = operator_end(s, i);
            lemma_scan_covers_input(s, j, line);
            lemma_whitespace_count_skip(s, i, j, s.len() as int);
            lemma_total_text_len_cons(
                SpecToken { kind: TokenType::Operator, text: s.subrange(i, j), line },
                spec_tokenize(s, j, line),
            );
        } else if is_punctuator_char(c) {
            lemma_scan_covers_input(s, i + 1, line);
            lemma_whitespace_count_skip(s, i, i + 1, s.len() as int);
            lemma_total_text_len_cons(
                SpecToken {
                    kind: TokenType::Punctuator,
                    text: s.subrange(i, i + 1),
                    line,
                },
                spec_tokenize(s, i + 1, line),
            );
        } else {
            lemma_scan_covers_input(s, i + 1, line);
            lemma_whitespace_count_skip(s, i, i + 1, s.len() as int);
            lemma_total_text_len_cons(
                SpecToken {
                    kind: TokenType::Unknown,
                    text: s.subrange(i, i + 1),
                    line,
                },
                spec_tokenize(s, i + 1, line),
            );
        }
    }
}

/// Whitespace transparency: no token ever comes from whitespace. Every
/// emitted token's lexeme is non-empty and contains no whitespace
/// character, for every input.
pub proof fn lemma_no_whitespace_tokens(s: Seq<char>, i: int, line: nat)
    requires
        0 <= i <= s.len(),
    ensures
        forall|k: int|
            0 <= k < spec_tokenize(s, i, line).len() ==> (#[trigger] spec_tokenize(
                s,
                i,
                line,
            )[k]).text.len() > 0,
        forall|k: int, m: int|
            0 <= k < spec_tokenize(s, i, line).len() && 0 <= m < spec_tokenize(s, i, line)[k].text.len()
                ==> !is_whitespace_char(#[trigger] spec_tokenize(s, i, line)[k].text[m]),
    decreases s.len() - i,
{
    if i < s.len() {
        let c = s[i];
        if is_whitespace_char(c) {
            let line2: nat = if c == '\n' {
                line + 1
            } else {
                line
            };
            lemma_no_whitespace_tokens(s, i + 1, line2);
        } else if is_alpha_char(c) {
            lemma_word_end_bounds(s, i);
            lemma_no_whitespace_tokens(s, word_end(s, i), line);
        } else if is_digit_char(c) {
            lemma_number_end_bounds(s, i, false);
            lemma_no_whitespace_tokens(s, number_end(s, i, false), line);
        } else if is_operator_char(c) {
            lemma_no_whitespace_tokens(s, operator_end(s, i), line);
        } else if is_punctuator_char(c) {
            lemma_no_whitespace_tokens(s, i + 1, line);
        } else {
            lemma_no_whitespace_tokens(s, i + 1, line);
        }
    }
}

/// Every entry of a well-formed keyword table is identifier-shaped: a
/// non-empty string that starts with a letter and contains only ASCII
/// alphanumeric characters. A reserved word can therefore only ever be
/// recognized where a word token is scanned.
pub proof fn lemma_keywords_are_identifier_shaped(kw: Seq<String>)
    requires
        keyword_table_wf(kw),
    ensures
        forall|k: int| 0 <= k < kw.len() ==> (#[trigger] kw[k]@).len() > 0,
        forall|k: int| 0 <= k < kw.len() ==> is_alpha_char((#[trigger] kw[k]@)[0]),
        forall|k: int, m: int|
            0 <= k < kw.len() && 0 <= m < kw[k]@.len() ==> is_alphanum_char(
                #[trigger] kw[k]@[m],
            ),
{
    reveal_strlit("hindsa");
    reveal_strlit("asharia");
    reveal_strlit("agar");
    reveal_strlit("phir");
    reveal_strlit("lekinagar");
    reveal_strlit("jabtk");
    reveal_strlit("niklo");
    reveal_strlit("wapsi");
    reveal_strlit("irshaad");
    reveal_strlit("chalooo");
}

/// Line tracking is monotone: every emitted token reports a line no
/// earlier than the line the scan started on, and tokens report
/// non-decreasing lines in source order.
pub proof fn lemma_token_lines_monotonic(s: Seq<char>, i: int, line: nat)
    requires
        0 <= i <= s.len(),
    ensures
        forall|k: int|
            0 <= k < spec_tokenize(s, i, line).len() ==> line <= (#[trigger] spec_tokenize(
                s,
                i,
                line,
            )[k]).line,
        forall|k1: int, k2: int|
            0 <= k1 <= k2 < spec_tokenize(s, i, line).len() ==> (#[trigger] spec_tokenize(
                s,
                i,
                line,
            )[k1]).line <= (#[trigger] spec_tokenize(s, i, line)[k2]).line,
    decreases s.len() - i,
{
    if i < s.len() {
        let c = s[i];
        if is_whitespace_char(c) {
            let line2: nat = if c == '\n' {
                line + 1
            } else {
                line
            };
            lemma_token_lines_monotonic(s, i + 1, line2);
        } else if is_alpha_char(c) {
            lemma_word_end_bounds(s, i);
            lemma_token_lines_monotonic(s, word_end(s, i), line);
        } else if is_digit_char(c) {
            lemma_number_end_bounds(s, i, false);
            lemma_token_lines_monotonic(s, number_end(s, i, false), line);
        } else if is_operator_char(c) {
            lemma_token_lines_monotonic(s, operator_end(s, i), line);
        } else if is_punctuator_char(c) {
            lemma_token_lines_monotonic(s, i + 1, line);
        } else {
            lemma_token_lines_monotonic(s, i + 1, line);
        }
    }
}

} // verus!
