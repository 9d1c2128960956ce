//! Tokenizer for the shell language.
//!
//! Scans source text into spanned tokens: POSIX operators and reserved
//! words, words, numbers, quoted strings, and the two parameter-expansion
//! token shapes.  Longest match wins; reserved words beat plain words.

use vstd::prelude::*;
use crate::ast::Span;

verus! {

/// The kinds of token the language knows.
#[derive(Debug, Clone, Copy, PartialEq, Eq, Structural)]
pub enum Token {
    /// `name=value`
    AssignmentWord,
    /// A plain word: command names, arguments, paths.
    Word,
    /// `[`
    LeftBracket,
    /// `]`
    RightBracket,
    /// `-`
    Dash,
    /// `.`
    Dot,
    /// A run of digits; an I/O number in redirection context.
    Number,
    /// A single- or double-quoted string literal, quotes included.
    String,
    /// A newline.
    Newline,
    /// `&&`
    AndIf,
    /// `||`
    OrIf,
    /// `;;`
    Dsemi,
    /// `<<`
    Dless,
    /// `>>`
    Dgreat,
    /// `<&`
    Lessand,
    /// `>&`
    Greatand,
    /// `<>`
    Lessgreat,
    /// `<<-`
    Dlessdash,
    /// `>|`
    Clobber,
    /// `if`
    If,
    /// `then`
    Then,
    /// `else`
    Else,
    /// `elif`
    Elif,
    /// `fi`
    Fi,
    /// `do`
    Do,
    /// `done`
    Done,
    /// `case`
    Case,
    /// `esac`
    Esac,
    /// `while`
    While,
    /// `until`
    Until,
    /// `for`
    For,
    /// `in`
    In,
    /// `{`
    Lbrace,
    /// `}`
    Rbrace,
    /// `!`
    Bang,
    /// `|`
    Pipe,
    /// `;`
    Semicolon,
    /// `&`
    Ampersand,
    /// `<`
    Less,
    /// `>`
    Great,
    /// `(`
    Lparen,
    /// `)`
    Rparen,
    /// `${...}`
    ParameterExpansion,
    /// `$name`
    SimpleParameterExpansion,
    /// Spaces and tabs; never emitted, always skipped.
    Whitespace,
    /// End of input.
    Eof,
    /// A character no rule accepts.
    Error,
}

/// A token together with its location and its exact source text.
#[derive(Debug, Clone)]
pub struct SpannedToken {
    pub token: Token,
    pub span: Span,
    pub text: String,
}

impl SpannedToken {
    /// The span covers `(start, end)` within a text of `len` characters and
    /// the token text is exactly that slice of the source.
    pub open spec fn wf_for(self, source: Seq<char>) -> bool {
        &&& self.span.start <= self.span.end <= source.len()
        &&& self.text@ == source.subrange(self.span.start as int, self.span.end as int)
    }
}

/// First letter of a variable name: a letter or underscore.
pub open spec fn is_name_start(c: char) -> bool {
    (97 <= c as u32 <= 122) || (65 <= c as u32 <= 90) || c as u32 == 95
}

/// Later letter of a variable name: a letter, digit or underscore.
pub open spec fn is_name_char(c: char) -> bool {
    is_name_start(c) || is_digit(c)
}

/// A decimal digit.
pub open spec fn is_digit(c: char) -> bool {
    48 <= c as u32 <= 57
}

/// Later character of a word: letters, digits, `_`, `.`, `/`, `-`.
pub open spec fn is_word_char(c: char) -> bool {
    is_name_char(c) || c as u32 == 46 || c as u32 == 47 || c as u32 == 45
}

/// Horizontal whitespace, skipped between tokens.
pub open spec fn is_blank(c: char) -> bool {
    c as u32 == 32 || c as u32 == 9 || c as u32 == 12
}

/// A character an assignment value may contain: anything but whitespace.
pub open spec fn is_assign_tail(c: char) -> bool {
    !(c as u32 == 32 || c as u32 == 9 || c as u32 == 10 || c as u32 == 13 || c as u32 == 12
        || c as u32 == 11)
}

/// First position at or past `i` that is not horizontal whitespace.
pub open spec fn skip_blanks(s: Seq<char>, i: int) -> int
    decreases s.len() - i,
{
    if 0 <= i < s.len() && is_blank(s[i]) {
        skip_blanks(s, i + 1)
    } else {
        i
    }
}

/// End of the run of name characters starting at `j`.
pub open spec fn name_run_end(s: Seq<char>, j: int) -> int
    decreases s.len() - j,
{
    if 0 <= j < s.len() && is_name_char(s[j]) {
        name_run_end(s, j + 1)
    } else {
        j
    }
}

/// End of the run of word characters starting at `j`.
pub open spec fn word_run_end(s: Seq<char>, j: int) -> int
    decreases s.len() - j,
{
    if 0 <= j < s.len() && is_word_char(s[j]) {
        word_run_end(s, j + 1)
    } else {
        j
    }
}

/// End of the run of digits starting at `j`.
pub open spec fn digit_run_end(s: Seq<char>, j: int) -> int
    decreases s.len() - j,
{
    if 0 <= j < s.len() && is_digit(s[j]) {
        digit_run_end(s, j + 1)
    } else {
        j
    }
}

/// End of the run of assignment-value characters starting at `j`.
pub open spec fn assign_run_end(s: Seq<char>, j: int) -> int
    decreases s.len() - j,
{
    if 0 <= j < s.len() && is_assign_tail(s[j]) {
        assign_run_end(s, j + 1)
    } else {
        j
    }
}

/// First `}` at or past `j`, or the input's length if there is none.
pub open spec fn find_close(s: Seq<char>, j: int) -> int
    decreases s.len() - j,
{
    if 0 <= j < s.len() {
        if s[j] == '}' {
            j
        } else {
            find_close(s, j + 1)
        }
    } else {
        s.len() as int
    }
}

/// Position just past the closing quote of a string literal whose body
/// starts at `j`, honouring backslash escapes; `None` if unterminated.
pub open spec fn string_end(s: Seq<char>, j: int, quote: char) -> Option<int>
    decreases s.len() - j,
{
    if !(0 <= j < s.len()) {
        Option::None
    } else if s[j] == quote {
        Option::Some(j + 1)
    } else if s[j] == '\\' {
        if j + 1 < s.len() {
            string_end(s, j + 2, quote)
        } else {
            Option::None
        }
    } else {
        string_end(s, j + 1, quote)
    }
}

/// The reserved-word token a word's text denotes, or `Word`.
pub open spec fn keyword_token_spec(text: Seq<char>) -> Token {
    if text == "if"@ {
        Token::If
    } else if text == "then"@ {
        Token::Then
    } else if text == "else"@ {
        Token::Else
    } else if text == "elif"@ {
        Token::Elif
    } else if text == "fi"@ {
        Token::Fi
    } else if text == "do"@ {
        Token::Do
    } else if text == "done"@ {
        Token::Done
    } else if text == "case"@ {
        Token::Case
    } else if text == "esac"@ {
        Token::Esac
    } else if text == "while"@ {
        Token::While
    } else if text == "until"@ {
        Token::Until
    } else if text == "for"@ {
        Token::For
    } else if text == "in"@ {
        Token::In
    } else {
        Token::Word
    }
}

/// Scanning a `$` at `i`: a braced expansion, a simple expansion, or an
/// error token of the `$` alone.
pub open spec fn scan_dollar_spec(s: Seq<char>, i: int) -> (Token, int) {
    if i + 1 < s.len() && s[i + 1] == '{' {
        let j = find_close(s, i + 2);
        if j < s.len() && j > i + 2 {
            (Token::ParameterExpansion, j + 1)
        } else {
            (Token::Error, i + 1)
        }
    } else if i + 1 < s.len() && is_name_start(s[i + 1]) {
        (Token::SimpleParameterExpansion, name_run_end(s, i + 2))
    } else {
        (Token::Error, i + 1)
    }
}

/// Scanning a quote at `i`: the string literal, or an error token of the
/// quote alone when unterminated.
pub open spec fn scan_string_spec(s: Seq<char>, i: int, quote: char) -> (Token, int) {
    match string_end(s, i + 1, quote) {
        Option::Some(e) => (Token::String, e),
        Option::None => (Token::Error, i + 1),
    }
}

/// Scanning a name character at `i`: an assignment word when `=` follows
/// the name run, else a word, reserved or plain.
pub open spec fn scan_name_spec(s: Seq<char>, i: int) -> (Token, int) {
    let j = name_run_end(s, i + 1);
    if j < s.len() && s[j] == '=' {
        (Token::AssignmentWord, assign_run_end(s, j + 1))
    } else {
        let w = word_run_end(s, j);
        (keyword_token_spec(s.subrange(i, w)), w)
    }
}

/// Scanning an operator or single-character token at `i`; longest match
/// wins; a character no rule accepts is an error token.
pub open spec fn scan_operator_spec(s: Seq<char>, i: int) -> (Token, int) {
    let c = s[i];
    if c == '\n' {
        (Token::Newline, i + 1)
    } else if c == '&' {
        if i + 1 < s.len() && s[i + 1] == '&' {
            (Token::AndIf, i + 2)
        } else {
            (Token::Ampersand, i + 1)
        }
    } else if c == '|' {
        if i + 1 < s.len() && s[i + 1] == '|' {
            (Token::OrIf, i + 2)
        } else {
            (Token::Pipe, i + 1)
        }
    } else if c == ';' {
        if i + 1 < s.len() && s[i + 1] == ';' {
            (Token::Dsemi, i + 2)
        } else {
            (Token::Semicolon, i + 1)
        }
    } else if c == '<' {
        if i + 1 < s.len() && s[i + 1] == '<' {
            if i + 2 < s.len() && s[i + 2] == '-' {
                (Token::Dlessdash, i + 3)
            } else {
                (Token::Dless, i + 2)
            }
        } else if i + 1 < s.len() && s[i + 1] == '&' {
            (Token::Lessand, i + 2)
        } else if i + 1 < s.len() && s[i + 1] == '>' {
            (Token::Lessgreat, i + 2)
        } else {
            (Token::Less, i + 1)
        }
    } else if c == '>' {
        if i + 1 < s.len() && s[i + 1] == '>' {
            (Token::Dgreat, i + 2)
        } else if i + 1 < s.len() && s[i + 1] == '&' {
            (Token::Greatand, i + 2)
        } else if i + 1 < s.len() && s[i + 1] == '|' {
            (Token::Clobber, i + 2)
        } else {
            (Token::Great, i + 1)
        }
    } else if c == '(' {
        (Token::Lparen, i + 1)
    } else if c == ')' {
        (Token::Rparen, i + 1)
    } else if c == '{' {
        (Token::Lbrace, i + 1)
    } else if c == '}' {
        (Token::Rbrace, i + 1)
    } else if c == '!' {
        (Token::Bang, i + 1)
    } else if c == '[' {
        (Token::LeftBracket, i + 1)
    } else if c == ']' {
        (Token::RightBracket, i + 1)
    } else if c == '-' {
        (Token::Dash, i + 1)
    } else if c == '.' {
        (Token::Dot, i + 1)
    } else {
        (Token::Error, i + 1)
    }
}

/// The token kind and end position of the token starting exactly at `i`.
pub open spec fn scan_at(s: Seq<char>, i: int) -> (Token, int) {
    if !(0 <= i < s.len()) {
        (Token::Eof, i)
    } else {
        let c = s[i];
        if c == '$' {
            scan_dollar_spec(s, i)
        } else if c == '"' || c == '\'' {
            scan_string_spec(s, i, c)
        } else if is_name_start(c) {
            scan_name_spec(s, i)
        } else if c as u32 == 47 {
            (Token::Word, word_run_end(s, i + 1))
        } else if is_digit(c) {
            (Token::Number, digit_run_end(s, i + 1))
        } else {
            scan_operator_spec(s, i)
        }
    }
}

/// The next token from position `pos`: its kind, start and end.  Blanks
/// are skipped first; at the end of the input the token is `Eof`.
pub open spec fn next_token_spec(s: Seq<char>, pos: int) -> (Token, int, int) {
    let start = skip_blanks(s, pos);
    if start >= s.len() {
        (Token::Eof, s.len() as int, s.len() as int)
    } else {
        let t = scan_at(s, start);
        (t.0, start, t.1)
    }
}

/// The whole tokenization of `s` from `pos`: every token's kind, start
/// and end, ending with one `Eof` entry.
pub open spec fn tokens_spec(s: Seq<char>, pos: int) -> Seq<(Token, int, int)>
    decreases s.len() - pos,
{
    let t = next_token_spec(s, pos);
    if !(t.0 is Eof) && pos < t.2 <= s.len() {
        seq![t] + tokens_spec(s, t.2)
    } else {
        seq![t]
    }
}

/// The kind/start/end triples of a token sequence.
pub open spec fn token_triples(ts: Seq<SpannedToken>) -> Seq<(Token, int, int)> {
    ts.map_values(|t: SpannedToken| (t.token, t.span.start as int, t.span.end as int))
}

fn ch_is_name_start(c: char) -> (r: bool)
    ensures
        r == is_name_start(c),
{
    let u = c as u32;
    (97 <= u && u <= 122) || (65 <= u && u <= 90) || u == 95
}

fn ch_is_name_char(c: char) -> (r: bool)
    ensures
        r == is_name_char(c),
{
    let u = c as u32;
    (97 <= u && u <= 122) || (65 <= u && u <= 90) || u == 95 || (48 <= u && u <= 57)
}

fn ch_is_digit(c: char) -> (r: bool)
    ensures
        r == is_digit(c),
{
    let u = c as u32;
    48 <= u && u <= 57
}

fn ch_is_word_char(c: char) -> (r: bool)
    ensures
        r == is_word_char(c),
{
    ch_is_name_char(c) || c as u32 == 46 || c as u32 == 47 || c as u32 == 45
}

fn ch_is_blank(c: char) -> (r: bool)
    ensures
        r == is_blank(c),
{
    let u = c as u32;
    u == 32 || u == 9 || u == 12
}

fn ch_is_assign_tail(c: char) -> (r: bool)
    ensures
        r == is_assign_tail(c),
{
    let u = c as u32;
    !(u == 32 || u == 9 || u == 10 || u == 13 || u == 12 || u == 11)
}

/// Produces tokens with spans from a borrowed source text.
pub struct Lexer<'a> {
    input: &'a str,
    pos: usize,
}

impl<'a> Lexer<'a> {
    /// The source being tokenized.
    pub closed spec fn source(self) -> Seq<char> {
        self.input@
    }

    /// The scanning position sits inside the source.
    pub closed spec fn wf(self) -> bool {
        self.pos <= self.input@.len()
    }

    /// How much input is left to scan.
    pub closed spec fn remaining(self) -> int {
        self.input@.len() - self.pos
    }

    pub fn new(input: &'a str) -> (r: Self)
        ensures
            r.wf(),
            r.source() == input@,
            r.spec_pos() == 0,
    {
        Self { input, pos: 0 }
    }

    /// Build the token for `(start, end)` out of the source slice.
    fn make(&self, token: Token, start: usize, end: usize) -> (r: SpannedToken)
        requires
            start <= end <= self.source().len(),
        ensures
            r.token == token,
            r.span.start == start,
            r.span.end == end,
            r.wf_for(self.source()),
    {
        let text = String::from_str(self.input.substring_char(start, end));
        SpannedToken { token, span: Span::new(start, end), text }
    }

    /// Scan the next token: exactly what `next_token_spec` names at the
    /// current position.  Returns `Eof` exactly at the end of the input;
    /// any other token moves the position forward.
    pub fn next_token(&mut self) -> (r: SpannedToken)
        requires
            old(self).wf(),
        ensures
            final(self).wf(),
            final(self).source() == old(self).source(),
            r.wf_for(old(self).source()),
            r.token is Eof ==> final(self).remaining() == 0,
            !(r.token is Eof) ==> final(self).remaining() < old(self).remaining(),
            ({
                let t = next_token_spec(old(self).source(), old(self).spec_pos());
                &&& r.token == t.0
                &&& r.span.start == t.1
                &&& r.span.end == t.2
                &&& final(self).spec_pos() == t.2
            }),
    {
        let len = self.input.unicode_len();
        let mut i = self.pos;
        while i < len && ch_is_blank(self.input.get_char(i))
            invariant
                self == old(self),
                self.wf(),
                self.pos <= i <= len,
                len == self.source().len(),
                skip_blanks(self.source(), self.spec_pos()) == skip_blanks(
                    self.source(),
                    i as int,
                ),
            decreases len - i,
        {
            i = i + 1;
        }
        proof {
            assert(skip_blanks(old(self).source(), old(self).spec_pos()) == i);
        }
        self.pos = i;
        if i == len {
            proof {
                assert(old(self).source().subrange(len as int, len as int) =~= Seq::<
                    char,
                >::empty());
            }
            return SpannedToken {
                token: Token::Eof,
                span: Span::new(len, len),
                text: String::new(),
            };
        }
        let c = self.input.get_char(i);
        if c == '$' {
            return self.scan_dollar(i, len);
        }
        if c == '"' || c == '\'' {
            return self.scan_string(i, len, c);
        }
        if ch_is_name_start(c) {
            return self.scan_name_or_assignment(i, len);
        }
        if c as u32 == 47 {
            let end = self.scan_word_end(i + 1, len);
            self.pos = end;
            return self.make(Token::Word, i, end);
        }
        if ch_is_digit(c) {
            let mut j = i + 1;
            while j < len && ch_is_digit(self.input.get_char(j))
                invariant
                    self.source() == old(self).source(),
                    self.wf(),
                    i < j <= len,
                    len == self.source().len(),
                    digit_run_end(self.source(), i + 1) == digit_run_end(
                        self.source(),
                        j as int,
                    ),
                decreases len - j,
            {
                j = j + 1;
            }
            self.pos = j;
            return self.make(Token::Number, i, j);
        }
        self.scan_operator(i, len, c)
    }

    /// Scan `$name` or `${...}`; a bare `$` is an error token.
    fn scan_dollar(&mut self, i: usize, len: usize) -> (r: SpannedToken)
        requires
            old(self).wf(),
            old(self).pos == i < len,
            len == old(self).source().len(),
        ensures
            final(self).wf(),
            final(self).source() == old(self).source(),
            r.wf_for(old(self).source()),
            !(r.token is Eof),
            final(self).remaining() < old(self).remaining(),
            ({
                let t = scan_dollar_spec(old(self).source(), i as int);
                r.token == t.0 && r.span.start == i && r.span.end == t.1
                    && final(self).spec_pos() == t.1
            }),
    {
        if i + 1 < len && self.input.get_char(i + 1) == '{' {
            let mut j = i + 2;
            while j < len && self.input.get_char(j) != '}'
                invariant
                    self == old(self),
                    self.wf(),
                    i + 2 <= j <= len,
                    len == self.source().len(),
                    find_close(self.source(), i + 2) == find_close(self.source(), j as int),
                decreases len - j,
            {
                j = j + 1;
            }
            if j < len && j > i + 2 {
                self.pos = j + 1;
                return self.make(Token::ParameterExpansion, i, j + 1);
            }
            self.pos = i + 1;
            return self.make(Token::Error, i, i + 1);
        }
        if i + 1 < len && ch_is_name_start(self.input.get_char(i + 1)) {
            let mut j = i + 2;
            while j < len && ch_is_name_char(self.input.get_char(j))
                invariant
                    self == old(self),
                    self.wf(),
                    i + 2 <= j <= len,
                    len == self.source().len(),
                    name_run_end(self.source(), i + 2) == name_run_end(self.source(), j as int),
                decreases len - j,
            {
                j = j + 1;
            }
            self.pos = j;
            return self.make(Token::SimpleParameterExpansion, i, j);
        }
        self.pos = i + 1;
        self.make(Token::Error, i, i + 1)
    }

    /// Scan a quoted string with backslash escapes; an unterminated quote is
    /// an error token.
    fn scan_string(&mut self, i: usize, len: usize, quote: char) -> (r: SpannedToken)
        requires
            old(self).wf(),
            old(self).pos == i < len,
            len == old(self).source().len(),
        ensures
            final(self).wf(),
            final(self).source() == old(self).source(),
            r.wf_for(old(self).source()),
            !(r.token is Eof),
            final(self).remaining() < old(self).remaining(),
            ({
                let t = scan_string_spec(old(self).source(), i as int, quote);
                r.token == t.0 && r.span.start == i && r.span.end == t.1
                    && final(self).spec_pos() == t.1
            }),
    {
        let mut j = i + 1;
        while j < len
            invariant
                self == old(self),
                self.wf(),
                i < j <= len,
                len == self.source().len(),
                self.pos == i,
                string_end(self.source(), i + 1, quote) == string_end(
                    self.source(),
                    j as int,
                    quote,
                ),
            decreases len - j,
        {
            let cj = self.input.get_char(j);
            if cj == quote {
                self.pos = j + 1;
                return self.make(Token::String, i, j + 1);
            }
            if cj == '\\' {
                if j + 1 >= len {
                    self.pos = i + 1;
                    return self.make(Token::Error, i, i + 1);
                }
                j = j + 2;
            } else {
                j = j + 1;
            }
        }
        self.pos = i + 1;
        self.make(Token::Error, i, i + 1)
    }

    /// End of the run of word characters starting at `j`.
    fn scan_word_end(&self, j: usize, len: usize) -> (r: usize)
        requires
            self.wf(),
            j <= len,
            len == self.source().len(),
        ensures
            j <= r <= len,
            r == word_run_end(self.source(), j as int),
    {
        let mut k = j;
        while k < len && ch_is_word_char(self.input.get_char(k))
            invariant
                self.wf(),
                j <= k <= len,
                len == self.source().len(),
                word_run_end(self.source(), j as int) == word_run_end(self.source(), k as int),
            decreases len - k,
        {
            k = k + 1;
        }
        k
    }

    /// Scan a token opening with a name character: an assignment word, a
    /// reserved word, or a plain word.
    fn scan_name_or_assignment(&mut self, i: usize, len: usize) -> (r: SpannedToken)
        requires
            old(self).wf(),
            old(self).pos == i < len,
            len == old(self).source().len(),
        ensures
            final(self).wf(),
            final(self).source() == old(self).source(),
            r.wf_for(old(self).source()),
            !(r.token is Eof),
            final(self).remaining() < old(self).remaining(),
            ({
                let t = scan_name_spec(old(self).source(), i as int);
                r.token == t.0 && r.span.start == i && r.span.end == t.1
                    && final(self).spec_pos() == t.1
            }),
    {
        let mut j = i + 1;
        while j < len && ch_is_name_char(self.input.get_char(j))
            invariant
                self == old(self),
                self.wf(),
                i < j <= len,
                len == self.source().len(),
                name_run_end(self.source(), i + 1) == name_run_end(self.source(), j as int),
            decreases len - j,
        {
            j = j + 1;
        }
        if j < len && self.input.get_char(j) == '=' {
            let mut k = j + 1;
            while k < len && ch_is_assign_tail(self.input.get_char(k))
                invariant
                    self == old(self),
                    self.wf(),
                    j < k <= len,
                    len == self.source().len(),
                    assign_run_end(self.source(), j + 1) == assign_run_end(
                        self.source(),
                        k as int,
                    ),
                decreases len - k,
            {
                k = k + 1;
            }
            self.pos = k;
            return self.make(Token::AssignmentWord, i, k);
        }
        let end = self.scan_word_end(j, len);
        self.pos = end;
        let word = self.make(Token::Word, i, end);
        let kind = keyword_token(word.text.as_str());
        SpannedToken { token: kind, span: word.span, text: word.text }
    }

    /// Scan operators and single-character tokens.
    fn scan_operator(&mut self, i: usize, len: usize, c: char) -> (r: SpannedToken)
        requires
            old(self).wf(),
            old(self).pos == i < len,
            len == old(self).source().len(),
            c == old(self).source()[i as int],
        ensures
            final(self).wf(),
            final(self).source() == old(self).source(),
            r.wf_for(old(self).source()),
            !(r.token is Eof),
            final(self).remaining() < old(self).remaining(),
            ({
                let t = scan_operator_spec(old(self).source(), i as int);
                r.token == t.0 && r.span.start == i && r.span.end == t.1
                    && final(self).spec_pos() == t.1
            }),
    {
        if c == '\n' {
            self.pos = i + 1;
            return self.make(Token::Newline, i, i + 1);
        }
        if c == '&' {
            if i + 1 < len && self.input.get_char(i + 1) == '&' {
                self.pos = i + 2;
                return self.make(Token::AndIf, i, i + 2);
            }
            self.pos = i + 1;
            return self.make(Token::Ampersand, i, i + 1);
        }
        if c == '|' {
            if i + 1 < len && self.input.get_char(i + 1) == '|' {
                self.pos = i + 2;
                return self.make(Token::OrIf, i, i + 2);
            }
            self.pos = i + 1;
            return self.make(Token::Pipe, i, i + 1);
        }
        if c == ';' {
            if i + 1 < len && self.input.get_char(i + 1) == ';' {
                self.pos = i + 2;
                return self.make(Token::Dsemi, i, i + 2);
            }
            self.pos = i + 1;
            return self.make(Token::Semicolon, i, i + 1);
        }
        if c == '<' {
            if i + 1 < len && self.input.get_char(i + 1) == '<' {
                if i + 2 < len && self.input.get_char(i + 2) == '-' {
                    self.pos = i + 3;
                    return self.make(Token::Dlessdash, i, i + 3);
                }
                self.pos = i + 2;
                return self.make(Token::Dless, i, i + 2);
            }
            if i + 1 < len && self.input.get_char(i + 1) == '&' {
                self.pos = i + 2;
                return self.make(Token::Lessand, i, i + 2);
            }
            if i + 1 < len && self.input.get_char(i + 1) == '>' {
                self.pos = i + 2;
                return self.make(Token::Lessgreat, i, i + 2);
            }
            self.pos = i + 1;
            return self.make(Token::Less, i, i + 1);
        }
        if c == '>' {
            if i + 1 < len && self.input.get_char(i + 1) == '>' {
                self.pos = i + 2;
                return self.make(Token::Dgreat, i, i + 2);
            }
            if i + 1 < len && self.input.get_char(i + 1) == '&' {
                self.pos = i + 2;
                return self.make(Token::Greatand, i, i + 2);
            }
            if i + 1 < len && self.input.get_char(i + 1) == '|' {
                self.pos = i + 2;
                return self.make(Token::Clobber, i, i + 2);
            }
            self.pos = i + 1;
            return self.make(Token::Great, i, i + 1);
        }
        let kind = if c == '(' {
            Token::Lparen
        } else if c == ')' {
            Token::Rparen
        } else if c == '{' {
            Token::Lbrace
        } else if c == '}' {
            Token::Rbrace
        } else if c == '!' {
            Token::Bang
        } else if c == '[' {
            Token::LeftBracket
        } else if c == ']' {
            Token::RightBracket
        } else if c == '-' {
            Token::Dash
        } else if c == '.' {
            Token::Dot
        } else {
            Token::Error
        };
        self.pos = i + 1;
        self.make(kind, i, i + 1)
    }

    /// Tokenize the whole input: the spec tokenization of the source from
    /// the current position — every token, then one `Eof`.
    pub fn tokenize(&mut self) -> (r: Vec<SpannedToken>)
        requires
            old(self).wf(),
        ensures
            final(self).wf(),
            r@.len() >= 1,
            r@.last().token is Eof,
            forall|i: int| 0 <= i < r@.len() ==> #[trigger] r@[i].wf_for(old(self).source()),
            forall|i: int| 0 <= i < r@.len() - 1 ==> !(#[trigger] r@[i].token is Eof),
            token_triples(r@) == tokens_spec(old(self).source(), old(self).spec_pos()),
    {
        let mut tokens: Vec<SpannedToken> = Vec::new();
        let mut done = false;
        proof {
            assert(token_triples(tokens@) =~= Seq::<(Token, int, int)>::empty());
        }
        while !done
            invariant
                self.wf(),
                self.source() == old(self).source(),
                forall|i: int|
                    0 <= i < tokens@.len() ==> #[trigger] tokens@[i].wf_for(old(self).source()),
                !done ==> forall|i: int|
                    0 <= i < tokens@.len() ==> !(#[trigger] tokens@[i].token is Eof),
                done ==> tokens@.len() >= 1 && tokens@.last().token is Eof,
                done ==> forall|i: int|
                    0 <= i < tokens@.len() - 1 ==> !(#[trigger] tokens@[i].token is Eof),
                !done ==> tokens_spec(old(self).source(), old(self).spec_pos()) == token_triples(
                    tokens@,
                ) + tokens_spec(old(self).source(), self.spec_pos()),
                done ==> tokens_spec(old(self).source(), old(self).spec_pos()) == token_triples(
                    tokens@,
                ),
            decreases
                    old(self).source().len() - self.spec_pos() + (if done {
                        0int
                    } else {
                        1int
                    }),
        {
            let ghost p_cur = self.spec_pos();
            let ghost pre = tokens@;
            let token = self.next_token();
            let is_eof = match token.token {
                Token::Eof => true,
                _ => false,
            };
            tokens.push(token);
            proof {
                let t = next_token_spec(old(self).source(), p_cur);
                assert(token_triples(tokens@) =~= token_triples(pre).push(t));
                if is_eof {
                    assert(tokens_spec(old(self).source(), p_cur) =~= seq![t]);
                    assert(token_triples(pre) + seq![t] =~= token_triples(tokens@));
                } else {
                    assert(tokens_spec(old(self).source(), p_cur) == seq![t] + tokens_spec(
                        old(self).source(),
                        self.spec_pos(),
                    ));
                    assert(token_triples(pre) + (seq![t] + tokens_spec(
                        old(self).source(),
                        self.spec_pos(),
                    )) =~= token_triples(tokens@) + tokens_spec(
                        old(self).source(),
                        self.spec_pos(),
                    ));
                }
            }
            if is_eof {
                done = true;
            }
        }
        tokens
    }

    /// The current scanning position.
    pub closed spec fn spec_pos(self) -> int {
        self.pos as int
    }
}

/// The reserved-word token for this text, or `Word` if it is none.
fn keyword_token(text: &str) -> (r: Token)
    ensures
        !(r is Eof),
        !(r is Error),
        r == keyword_token_spec(text@),
{
    if crate::variable_resolver::str_eq(text, "if") {
        Token::If
    } else if crate::variable_resolver::str_eq(text, "then") {
        Token::Then
    } else if crate::variable_resolver::str_eq(text, "else") {
        Token::Else
    } else if crate::variable_resolver::str_eq(text, "elif") {
        Token::Elif
    } else if crate::variable_resolver::str_eq(text, "fi") {
        Token::Fi
    } else if crate::variable_resolver::str_eq(text, "do") {
        Token::Do
    } else if crate::variable_resolver::str_eq(text, "done") {
        Token::Done
    } else if crate::variable_resolver::str_eq(text, "case") {
        Token::Case
    } else if crate::variable_resolver::str_eq(text, "esac") {
        Token::Esac
    } else if crate::variable_resolver::str_eq(text, "while") {
        Token::While
    } else if crate::variable_resolver::str_eq(text, "until") {
        Token::Until
    } else if crate::variable_resolver::str_eq(text, "for") {
        Token::For
    } else if crate::variable_resolver::str_eq(text, "in") {
        Token::In
    } else {
        Token::Word
    }
}

} // verus!
