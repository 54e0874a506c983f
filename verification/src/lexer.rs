//! The executable scanner, proved against the model in `scanning`.

use vstd::prelude::*;
use vstd::string::*;

use crate::scanning::{
    has_dot, is_alpha_char, is_alphanum_char, is_digit_char, is_keyword_text, is_operator_char,
    is_punctuator_char, is_whitespace_char, lemma_newline_count_bound, lemma_newline_count_skip,
    lemma_number_end_bounds, lemma_word_end_bounds, newline_count, number_end, operator_end,
    spec_tokenize, word_end,
};
use crate::token::{SpecToken, Token, TokenType};

verus! {

/// The keyword table holds exactly the ten reserved words, in a fixed
/// order. Every entry is identifier-shaped (a letter followed by ASCII
/// alphanumerics), so a keyword can only ever be recognized where a
/// word token is scanned.
pub open spec fn keyword_table_wf(kw: Seq<String>) -> bool {
    &&& kw.len() == 10
    &&& kw[0]@ == "hindsa"@
    &&& kw[1]@ == "asharia"@
    &&& kw[2]@ == "agar"@
    &&& kw[3]@ == "phir"@
    &&& kw[4]@ == "lekinagar"@
    &&& kw[5]@ == "jabtk"@
    &&& kw[6]@ == "niklo"@
    &&& kw[7]@ == "wapsi"@
    &&& kw[8]@ == "irshaad"@
    &&& kw[9]@ == "chalooo"@
}

/// The scanner: the source text, a cursor (character position and
/// current 1-based line), and the table of reserved words.
pub struct LexicalAnalyzer {
    pub input: String,
    pub position: usize,
    pub line: usize,
    pub keywords: Vec<String>,
}

impl LexicalAnalyzer {
    /// The scanner's invariant: the cursor never passes the end of the
    /// input, and the keyword table holds the reserved words.
    pub open spec fn wf(&self) -> bool {
        &&& self.position <= self.input@.len()
        &&& keyword_table_wf(self.keywords@)
    }

    /// Construction cannot fail: the cursor starts at the first
    /// character of line 1 and the keyword table is fixed.
    pub fn new(source: String) -> (r: LexicalAnalyzer)
        ensures
            r.input == source,
            r.position == 0,
            r.line == 1,
            r.wf(),
    {
        let mut analyzer = LexicalAnalyzer {
            input: source,
            position: 0,
            line: 1,
            keywords: Vec::new(),
        };
        analyzer.init_keywords();
        analyzer
    }

    /// Fills the keyword table with the ten reserved words; everything
    /// else about the scanner is left as it was.
    fn init_keywords(&mut self)
        ensures
            final(self).input == old(self).input,
            final(self).position == old(self).position,
            final(self).line == old(self).line,
            keyword_table_wf(final(self).keywords@),
    {
        let mut kw: Vec<String> = Vec::new();
        kw.push(String::from_str("hindsa"));
        kw.push(String::from_str("asharia"));
        kw.push(String::from_str("agar"));
        kw.push(String::from_str("phir"));
        kw.push(String::from_str("lekinagar"));
        kw.push(String::from_str("jabtk"));
        kw.push(String::from_str("niklo"));
        kw.push(String::from_str("wapsi"));
        kw.push(String::from_str("irshaad"));
        kw.push(String::from_str("chalooo"));
        self.keywords = kw;
    }

    fn is_whitespace(c: char) -> (r: bool)
        ensures
            r == is_whitespace_char(c),
    {
        c == ' ' || c == '\t' || c == '\n' || c == '\r'
    }

    fn is_alpha(c: char) -> (r: bool)
        ensures
            r == is_alpha_char(c),
    {
        ('a' <= c && c <= 'z') || ('A' <= c && c <= 'Z')
    }

    fn is_digit(c: char) -> (r: bool)
        ensures
            r == is_digit_char(c),
    {
        '0' <= c && c <= '9'
    }

    fn is_alphanum(c: char) -> (r: bool)
        ensures
            r == is_alphanum_char(c),
    {
        LexicalAnalyzer::is_alpha(c) || LexicalAnalyzer::is_digit(c)
    }

    /// Whether `c` starts an operator token.
    fn is_operator(c: char) -> (r: bool)
        ensures
            r == is_operator_char(c),
    {
        c == '+' || c == '-' || c == '*' || c == '/' || c == '=' || c == '!' || c == '<'
            || c == '>'
    }

    /// Whether `c` is a punctuator.
    fn is_punctuator(c: char) -> (r: bool)
        ensures
            r == is_punctuator_char(c),
    {
        c == '(' || c == ')' || c == '{' || c == '}' || c == ';'
    }

    /// Whether `word` is one of the reserved words: an exact,
    /// case-sensitive match against the keyword table.
    fn is_keyword(&self, word: &String) -> (r: bool)
        requires
            keyword_table_wf(self.keywords@),
        ensures
            r == is_keyword_text(word@),
    {
        let mut i: usize = 0;
        while i < self.keywords.len()
            invariant
                keyword_table_wf(self.keywords@),
                0 <= i <= self.keywords@.len(),
                forall|m: int| 0 <= m < i ==> #[trigger] self.keywords@[m]@ != word@,
            decreases self.keywords@.len() - i,
        {
            if self.keywords[i] == *word {
                return true;
            }
            i += 1;
        }
        false
    }

    /// Consumes the maximal run of ASCII alphanumeric characters at the
    /// cursor and returns it as the lexeme of a word token.
    fn get_next_word(&mut self) -> (w: String)
        requires
            old(self).wf(),
        ensures
            final(self).input == old(self).input,
            final(self).line == old(self).line,
            final(self).keywords == old(self).keywords,
            final(self).position == word_end(old(self).input@, old(self).position as int),
            w@ == old(self).input@.subrange(
                old(self).position as int,
                final(self).position as int,
            ),
            final(self).wf(),
    {
        let ghost s = self.input@;
        let start = self.position;
        let n = self.input.as_str().unicode_len();
        while self.position < n && LexicalAnalyzer::is_alphanum(
            self.input.as_str().get_char(self.position),
        )
            invariant
                self.input == old(self).input,
                s == old(self).input@,
                self.line == old(self).line,
                self.keywords == old(self).keywords,
                n == s.len(),
                start == old(self).position,
                start <= self.position <= n,
                word_end(s, self.position as int) == word_end(s, start as int),
            decreases s.len() - self.position,
        {
            self.position += 1;
        }
        self.input.as_str().substring_char(start, self.position).to_owned()
    }

    /// Whether a character extends the number lexeme being scanned: a
    /// digit always does, and a decimal point does unless one has
    /// already been consumed.
    fn continues_number(c: char, has_decimal: bool) -> (r: bool)
        ensures
            r == (is_digit_char(c) || (c == '.' && !has_decimal)),
    {
        c == '.' && !has_decimal || LexicalAnalyzer::is_digit(c)
    }

    /// Consumes the maximal run of digits at the cursor, permitting at
    /// most one decimal point; a second `.` ends the lexeme and is left
    /// for the next dispatch step.
    fn get_next_number(&mut self) -> (num: String)
        requires
            old(self).wf(),
        ensures
            final(self).input == old(self).input,
            final(self).line == old(self).line,
            final(self).keywords == old(self).keywords,
            final(self).position == number_end(old(self).input@, old(self).position as int, false),
            num@ == old(self).input@.subrange(
                old(self).position as int,
                final(self).position as int,
            ),
            final(self).wf(),
    {
        let ghost s = self.input@;
        let start = self.position;
        let n = self.input.as_str().unicode_len();
        let mut has_decimal = false;
        while self.position < n && LexicalAnalyzer::continues_number(
            self.input.as_str().get_char(self.position),
            has_decimal,
        )
            invariant
                self.input == old(self).input,
                s == old(self).input@,
                self.line == old(self).line,
                self.keywords == old(self).keywords,
                n == s.len(),
                start == old(self).position,
                start <= self.position <= n,
                number_end(s, self.position as int, has_decimal) == number_end(
                    s,
                    start as int,
                    false,
                ),
            decreases s.len() - self.position,
        {
            if self.input.as_str().get_char(self.position) == '.' {
                has_decimal = true;
            }
            self.position += 1;
        }
        self.input.as_str().substring_char(start, self.position).to_owned()
    }

    /// Whether the lexeme contains a decimal point, which makes a
    /// number literal a `FloatLiteral` rather than an `IntegerLiteral`.
    fn contains_decimal_point(num: &String) -> (r: bool)
        ensures
            r == has_dot(num@),
    {
        let n = num.as_str().unicode_len();
        let mut i: usize = 0;
        while i < n
            invariant
                n == num@.len(),
                0 <= i <= n,
                forall|k: int| 0 <= k < i ==> num@[k] != '.',
            decreases n - i,
        {
            if num.as_str().get_char(i) == '.' {
                return true;
            }
            i += 1;
        }
        false
    }

    /// Scans the rest of the input, returning every token from the
    /// cursor to the end of the source in order. The scan is total: it
    /// consumes the whole input and classifies every non-whitespace
    /// character, with unrecognized characters emitted as `Unknown`
    /// tokens rather than reported as errors. The cursor ends at the
    /// end of the input and the line counter advances by exactly the
    /// number of newline characters consumed.
    pub fn tokenize(&mut self) -> (tokens: Vec<Token>)
        requires
            old(self).wf(),
            old(self).line + old(self).input@.len() <= usize::MAX,
        ensures
            final(self).input == old(self).input,
            final(self).keywords == old(self).keywords,
            final(self).position == final(self).input@.len(),
            final(self).line == old(self).line + newline_count(
                old(self).input@,
                old(self).position as int,
                old(self).input@.len() as int,
            ),
            tokens@.map_values(|t: Token| t@) == spec_tokenize(
                old(self).input@,
                old(self).position as int,
                old(self).line as nat,
            ),
            final(self).wf(),
    {
        let ghost s = self.input@;
        let ghost start0 = self.position as int;
        let ghost line0 = self.line as nat;
        let mut tokens: Vec<Token> = Vec::new();
        let n = self.input.as_str().unicode_len();

        while self.position < n
            invariant
                self.input == old(self).input,
                s == old(self).input@,
                start0 == old(self).position as int,
                line0 == old(self).line as nat,
                self.keywords == old(self).keywords,
                keyword_table_wf(self.keywords@),
                n == s.len(),
                0 <= start0 <= self.position <= n,
                old(self).line + s.len() <= usize::MAX,
                self.line == old(self).line + newline_count(s, start0, self.position as int),
                tokens@.map_values(|t: Token| t@) + spec_tokenize(
                    s,
                    self.position as int,
                    self.line as nat,
                ) == spec_tokenize(s, start0, line0),
            decreases s.len() - self.position,
        {
            let ghost pos0 = self.position as int;
            let ghost tokens_pre = tokens@;
            proof {
                lemma_newline_count_bound(s, start0, pos0);
            }
            let current_char = self.input.as_str().get_char(self.position);

            if LexicalAnalyzer::is_whitespace(current_char) {
                if current_char == '\n' {
                    self.line += 1;
                }
                self.position += 1;
            } else if LexicalAnalyzer::is_alpha(current_char) {
                let word = self.get_next_word();
                proof {
                    lemma_word_end_bounds(s, pos0);
                    lemma_newline_count_skip(s, start0, pos0, self.position as int);
                }
                let token_type = if self.is_keyword(&word) {
                    TokenType::Keyword
                } else {
                    TokenType::Identifier
                };
                let token = Token::new(token_type, word, self.line);
                tokens.push(token);
                proof {
                    assert(tokens@.map_values(|t: Token| t@) =~= tokens_pre.map_values(
                        |t: Token| t@,
                    ).push(token@));
                    assert(tokens@.map_values(|t: Token| t@) + spec_tokenize(
                        s,
                        self.position as int,
                        self.line as nat,
                    ) =~= spec_tokenize(s, start0, line0));
                }
            } else if LexicalAnalyzer::is_digit(current_char) {
                let number = self.get_next_number();
                proof {
                    lemma_number_end_bounds(s, pos0, false);
                    lemma_newline_count_skip(s, start0, pos0, self.position as int);
                }
                let token_type = if LexicalAnalyzer::contains_decimal_point(&number) {
                    TokenType::FloatLiteral
                } else {
                    TokenType::IntegerLiteral
                };
                let token = Token::new(token_type, number, self.line);
                tokens.push(token);
                proof {
                    assert(tokens@.map_values(|t: Token| t@) =~= tokens_pre.map_values(
                        |t: Token| t@,
                    ).push(token@));
                    assert(tokens@.map_values(|t: Token| t@) + spec_tokenize(
                        s,
                        self.position as int,
                        self.line as nat,
                    ) =~= spec_tokenize(s, start0, line0));
                }
            } else if LexicalAnalyzer::is_operator(current_char) {
                let op_start = self.position;
                self.position += 1;
                if self.position < n && self.input.as_str().get_char(self.position) == '=' {
                    self.position += 1;
                }
                let op = self.input.as_str().substring_char(op_start, self.position).to_owned();
                proof {
                    assert(self.position as int == operator_end(s, pos0));
                    lemma_newline_count_skip(s, start0, pos0, self.position as int);
                }
                let token = Token::new(TokenType::Operator, op, self.line);
                tokens.push(token);
                proof {
                    assert(tokens@.map_values(|t: Token| t@) =~= tokens_pre.map_values(
                        |t: Token| t@,
                    ).push(token@));
                    assert(tokens@.map_values(|t: Token| t@) + spec_tokenize(
                        s,
                        self.position as int,
                        self.line as nat,
                    ) =~= spec_tokenize(s, start0, line0));
                }
            } else if LexicalAnalyzer::is_punctuator(current_char) {
                let text = self.input.as_str().substring_char(
                    self.position,
                    self.position + 1,
                ).to_owned();
                let token = Token::new(TokenType::Punctuator, text, self.line);
                tokens.push(token);
                self.position += 1;
                proof {
                    lemma_newline_count_skip(s, start0, pos0, self.position as int);
                    assert(tokens@.map_values(|t: Token| t@) =~= tokens_pre.map_values(
                        |t: Token| t@,
                    ).push(token@));
                    assert(tokens@.map_values(|t: Token| t@) + spec_tokenize(
                        s,
                        self.position as int,
                        self.line as nat,
                    ) =~= spec_tokenize(s, start0, line0));
                }
            } else {
                let text = self.input.as_str().substring_char(
                    self.position,
                    self.position + 1,
                ).to_owned();
                let token = Token::new(TokenType::Unknown, text, self.line);
                tokens.push(token);
                self.position += 1;
                proof {
                    lemma_newline_count_skip(s, start0, pos0, self.position as int);
                    assert(tokens@.map_values(|t: Token| t@) =~= tokens_pre.map_values(
                        |t: Token| t@,
                    ).push(token@));
                    assert(tokens@.map_values(|t: Token| t@) + spec_tokenize(
                        s,
                        self.position as int,
                        self.line as nat,
                    ) =~= spec_tokenize(s, start0, line0));
                }
            }
        }
        tokens
    }
}

} // verus!
