//! The lexer: from characters to tokens.
//!
//! Blanks separate tokens. Parentheses, brackets and the bar are tokens of
//! their own. A double quote opens a string literal. `#` opens a comment
//! that runs to the end of the line. Any other run of characters is a word:
//! a keyword, a literal, or an identifier.

use vstd::prelude::*;
use crate::text::{chars_of, push_char};

verus! {

/// The kinds of tokens.
#[derive(Debug, Clone, Copy, PartialEq, Eq, Structural)]
pub enum TokenKind {
    Type,
    Colon,
    LeftParen,
    RightParen,
    LeftBracket,
    RightBracket,
    Pipe,
    Dash,
    Arrow,
    Match,
    End,
    If,
    While,
    IntLiteral,
    BoolLiteral,
    StringLiteral,
    Ident,
    Eof,
}

/// Model of a token.
pub struct TokenModel {
    pub kind: TokenKind,
    pub lexeme: Seq<char>,
    pub line: usize,
    pub column: usize,
}

/// A token: its kind, its text, and the line and column where it starts.
#[derive(Debug, PartialEq)]
pub struct Token {
    pub kind: TokenKind,
    pub lexeme: String,
    pub line: usize,
    pub column: usize,
}

impl View for Token {
    type V = TokenModel;

    open spec fn view(&self) -> TokenModel {
        TokenModel { kind: self.kind, lexeme: self.lexeme@, line: self.line, column: self.column }
    }
}

impl Clone for Token {
    fn clone(&self) -> (r: Self)
        ensures
            r@ == self@,
    {
        Token {
            kind: self.kind,
            lexeme: self.lexeme.clone(),
            line: self.line,
            column: self.column,
        }
    }
}

/// The models of the tokens of a sequence, in order.
pub open spec fn tokens_model(ts: Seq<Token>) -> Seq<TokenModel> {
    Seq::new(ts.len(), |i: int| ts[i]@)
}

/// Whether a character separates tokens without being one.
pub open spec fn is_space(c: char) -> bool {
    c == ' ' || c == '\t' || c == '\n' || c == '\r'
}

/// Whether a character ends a word that stands before it.
pub open spec fn is_delimiter(c: char) -> bool {
    c == '(' || c == ')' || c == '[' || c == ']' || c == '|' || c == '"'
}

/// Whether a character is a decimal digit.
pub open spec fn is_digit(c: char) -> bool {
    '0' <= c <= '9'
}

/// The number after `n`, where there is one.
pub open spec fn bump(n: usize) -> usize {
    if n < usize::MAX {
        (n + 1) as usize
    } else {
        n
    }
}

/// The line and column after a character at the given line and column.
pub open spec fn after_char(c: char, line: usize, column: usize) -> (usize, usize) {
    if c == '\n' {
        (bump(line), 1)
    } else {
        (line, bump(column))
    }
}

/// The kind of a token that is one character long, if the character is one.
pub open spec fn single_kind(c: char) -> Option<TokenKind> {
    if c == '(' {
        Some(TokenKind::LeftParen)
    } else if c == ')' {
        Some(TokenKind::RightParen)
    } else if c == '[' {
        Some(TokenKind::LeftBracket)
    } else if c == ']' {
        Some(TokenKind::RightBracket)
    } else if c == '|' {
        Some(TokenKind::Pipe)
    } else {
        None
    }
}

/// Where the word that starts at `i` ends: at the first blank or delimiter,
/// or at the end of the text.
pub open spec fn word_end(s: Seq<char>, i: int) -> int
    decreases s.len() - i,
{
    if i < 0 || i >= s.len() || is_space(s[i]) || is_delimiter(s[i]) {
        i
    } else {
        word_end(s, i + 1)
    }
}

/// Where the line that holds position `i` ends: at the next line feed, or
/// at the end of the text.
pub open spec fn line_end(s: Seq<char>, i: int) -> int
    decreases s.len() - i,
{
    if i < 0 || i >= s.len() || s[i] == '\n' {
        i
    } else {
        line_end(s, i + 1)
    }
}

/// Whether the characters from position `i` on are all digits.
pub open spec fn all_digits(w: Seq<char>, i: int) -> bool
    decreases w.len() - i,
{
    if i < 0 || i >= w.len() {
        true
    } else if !is_digit(w[i]) {
        false
    } else {
        all_digits(w, i + 1)
    }
}

/// Whether a word is an integer literal: digits, with or without a minus
/// sign in front.
pub open spec fn is_int_text(w: Seq<char>) -> bool {
    if w.len() > 0 && w[0] == '-' {
        w.len() > 1 && all_digits(w, 1)
    } else {
        w.len() > 0 && all_digits(w, 0)
    }
}

/// The kind of a word.
pub open spec fn classify(w: Seq<char>) -> TokenKind {
    if w == "--"@ {
        TokenKind::Dash
    } else if w == "=>"@ {
        TokenKind::Arrow
    } else if w == ":"@ {
        TokenKind::Colon
    } else if w == "type"@ {
        TokenKind::Type
    } else if w == "match"@ {
        TokenKind::Match
    } else if w == "end"@ {
        TokenKind::End
    } else if w == "if"@ {
        TokenKind::If
    } else if w == "while"@ {
        TokenKind::While
    } else if w == "true"@ || w == "false"@ {
        TokenKind::BoolLiteral
    } else if is_int_text(w) {
        TokenKind::IntLiteral
    } else {
        TokenKind::Ident
    }
}

/// What scanning a string literal gives: its content, the position after
/// it, and the line and column there.
pub struct StringScan {
    pub content: Seq<char>,
    pub end: int,
    pub line: usize,
    pub column: usize,
}

/// The character that a backslash and `c` stand for.
pub open spec fn unescape(c: char) -> char {
    if c == 'n' {
        '\n'
    } else if c == 't' {
        '\t'
    } else {
        c
    }
}

/// Scanning the inside of a string literal from position `i` on, with
/// `content` read so far. The literal ends at the next double quote that no
/// backslash stands in front of, or at the end of the text.
pub open spec fn scan_string(
    s: Seq<char>,
    i: int,
    content: Seq<char>,
    line: usize,
    column: usize,
) -> StringScan
    decreases s.len() - i,
{
    if i < 0 || i >= s.len() {
        StringScan { content, end: i, line, column }
    } else if s[i] == '"' {
        StringScan { content, end: i + 1, line, column: bump(column) }
    } else if s[i] == '\\' && i + 1 < s.len() {
        let (l1, c1) = after_char(s[i], line, column);
        let (l2, c2) = after_char(s[i + 1], l1, c1);
        scan_string(s, i + 2, content.push(unescape(s[i + 1])), l2, c2)
    } else {
        let (l1, c1) = after_char(s[i], line, column);
        scan_string(s, i + 1, content.push(s[i]), l1, c1)
    }
}

/// The column `n` characters after `column`, where there is one.
pub open spec fn shifted(column: usize, n: int) -> usize {
    if column + n <= usize::MAX {
        (column + n) as usize
    } else {
        usize::MAX
    }
}

/// A word ends at or after the position where it starts.
pub proof fn lemma_word_end(s: Seq<char>, i: int)
    requires
        0 <= i <= s.len(),
    ensures
        i <= word_end(s, i) <= s.len(),
    decreases s.len() - i,
{
    if i < s.len() && !is_space(s[i]) && !is_delimiter(s[i]) {
        lemma_word_end(s, i + 1);
    }
}

/// A line ends at or after any of its positions.
pub proof fn lemma_line_end(s: Seq<char>, i: int)
    requires
        0 <= i <= s.len(),
    ensures
        i <= line_end(s, i) <= s.len(),
    decreases s.len() - i,
{
    if i < s.len() && s[i] != '\n' {
        lemma_line_end(s, i + 1);
    }
}

/// A string literal ends at or after the position where its inside
/// starts.
pub proof fn lemma_scan_string(s: Seq<char>, i: int, content: Seq<char>, line: usize, column: usize)
    requires
        0 <= i <= s.len(),
    ensures
        i <= scan_string(s, i, content, line, column).end <= s.len(),
        i < s.len() ==> i < scan_string(s, i, content, line, column).end,
    decreases s.len() - i,
{
    if i < s.len() && s[i] != '"' {
        if s[i] == '\\' && i + 1 < s.len() {
            let (l1, c1) = after_char(s[i], line, column);
            let (l2, c2) = after_char(s[i + 1], l1, c1);
            lemma_scan_string(s, i + 2, content.push(unescape(s[i + 1])), l2, c2);
        } else {
            let (l1, c1) = after_char(s[i], line, column);
            lemma_scan_string(s, i + 1, content.push(s[i]), l1, c1);
        }
    }
}

/// The tokens of the text from position `i` on, added to `tokens`, and the
/// closing end-of-file token.
pub open spec fn lex(
    s: Seq<char>,
    i: int,
    line: usize,
    column: usize,
    tokens: Seq<TokenModel>,
) -> Seq<
    TokenModel,
>
    decreases s.len() - i,
{
    if i < 0 || i >= s.len() {
        tokens.push(TokenModel { kind: TokenKind::Eof, lexeme: Seq::empty(), line, column })
    } else if is_space(s[i]) {
        let (l1, c1) = after_char(s[i], line, column);
        lex(s, i + 1, l1, c1, tokens)
    } else if s[i] == '#' {
        proof {
            lemma_line_end(s, i + 1);
        }
        lex(s, line_end(s, i + 1), line, column, tokens)
    } else if single_kind(s[i]) is Some {
        lex(
            s,
            i + 1,
            line,
            bump(column),
            tokens.push(
                TokenModel { kind: single_kind(s[i])->0, lexeme: seq![s[i]], line, column },
            ),
        )
    } else if s[i] == '"' {
        proof {
            lemma_scan_string(s, i + 1, Seq::empty(), line, bump(column));
        }
        let scan = scan_string(s, i + 1, Seq::empty(), line, bump(column));
        lex(
            s,
            scan.end,
            scan.line,
            scan.column,
            tokens.push(
                TokenModel { kind: TokenKind::StringLiteral, lexeme: scan.content, line, column },
            ),
        )
    } else {
        proof {
            lemma_word_end(s, i + 1);
        }
        let end = word_end(s, i + 1);
        let word = s.subrange(i, end);
        lex(
            s,
            end,
            line,
            shifted(column, end - i),
            tokens.push(TokenModel { kind: classify(word), lexeme: word, line, column }),
        )
    }
}

/// The tokens of a source text: lines and columns count from one.
pub open spec fn tokens_of(source: Seq<char>) -> Seq<TokenModel> {
    lex(source, 0, 1, 1, Seq::empty())
}

/// The token list of any text ends with the end-of-file token.
pub proof fn lemma_lex_ends(
    s: Seq<char>,
    i: int,
    line: usize,
    column: usize,
    tokens: Seq<TokenModel>,
)
    requires
        0 <= i <= s.len(),
    ensures
        lex(s, i, line, column, tokens).len() > 0,
        lex(s, i, line, column, tokens).last().kind == TokenKind::Eof,
    decreases s.len() - i,
{
    if i < s.len() {
        if is_space(s[i]) {
            let (l1, c1) = after_char(s[i], line, column);
            lemma_lex_ends(s, i + 1, l1, c1, tokens);
        } else if s[i] == '#' {
            lemma_line_end(s, i + 1);
            lemma_lex_ends(s, line_end(s, i + 1), line, column, tokens);
        } else if single_kind(s[i]) is Some {
            lemma_lex_ends(
                s,
                i + 1,
                line,
                bump(column),
                tokens.push(
                    TokenModel { kind: single_kind(s[i])->0, lexeme: seq![s[i]], line, column },
                ),
            );
        } else if s[i] == '"' {
            lemma_scan_string(s, i + 1, Seq::empty(), line, bump(column));
            let scan = scan_string(s, i + 1, Seq::empty(), line, bump(column));
            lemma_lex_ends(
                s,
                scan.end,
                scan.line,
                scan.column,
                tokens.push(
                    TokenModel {
                        kind: TokenKind::StringLiteral,
                        lexeme: scan.content,
                        line,
                        column,
                    },
                ),
            );
        } else {
            lemma_word_end(s, i + 1);
            let end = word_end(s, i + 1);
            let word = s.subrange(i, end);
            lemma_lex_ends(
                s,
                end,
                line,
                shifted(column, end - i),
                tokens.push(TokenModel { kind: classify(word), lexeme: word, line, column }),
            );
        }
    }
}

/// The number after `n`, where there is one.
fn next_number(n: usize) -> (r: usize)
    ensures
        r == bump(n),
{
    if n < usize::MAX {
        n + 1
    } else {
        n
    }
}

/// Whether a character separates tokens without being one.
fn space(c: char) -> (r: bool)
    ensures
        r == is_space(c),
{
    c == ' ' || c == '\t' || c == '\n' || c == '\r'
}

/// Whether a character ends a word that stands before it.
fn delimiter(c: char) -> (r: bool)
    ensures
        r == is_delimiter(c),
{
    c == '(' || c == ')' || c == '[' || c == ']' || c == '|' || c == '"'
}

/// The kind of a token that is one character long.
fn single(c: char) -> (r: Option<TokenKind>)
    ensures
        r == single_kind(c),
{
    if c == '(' {
        Some(TokenKind::LeftParen)
    } else if c == ')' {
        Some(TokenKind::RightParen)
    } else if c == '[' {
        Some(TokenKind::LeftBracket)
    } else if c == ']' {
        Some(TokenKind::RightBracket)
    } else if c == '|' {
        Some(TokenKind::Pipe)
    } else {
        None
    }
}

/// Whether the characters of a word are those of `text`.
fn word_is(w: &Vec<char>, text: &str) -> (r: bool)
    ensures
        r == (w@ == text@),
{
    let t = chars_of(text);
    if w.len() != t.len() {
        return false;
    }
    let mut i: usize = 0;
    while i < w.len()
        invariant
            i <= w.len(),
            w.len() == t.len(),
            t@ == text@,
            forall|k: int| 0 <= k < i ==> w@[k] == t@[k],
        decreases w.len() - i,
    {
        if w[i] != t[i] {
            return false;
        }
        i += 1;
    }
    assert(w@ =~= t@);
    true
}

/// Whether a word is an integer literal.
fn int_text(w: &Vec<char>) -> (r: bool)
    ensures
        r == is_int_text(w@),
{
    let start: usize = if w.len() > 0 && w[0] == '-' {
        1
    } else {
        0
    };
    if w.len() <= start {
        return false;
    }
    let mut i: usize = start;
    while i < w.len()
        invariant
            start <= i <= w.len(),
            start < w.len(),
            start == (if w@.len() > 0 && w@[0] == '-' {
                1int
            } else {
                0int
            }),
            all_digits(w@, start as int) == all_digits(w@, i as int),
        decreases w.len() - i,
    {
        if !('0' <= w[i] && w[i] <= '9') {
            return false;
        }
        i += 1;
    }
    true
}

/// The kind of a word.
fn kind_of(w: &Vec<char>) -> (r: TokenKind)
    ensures
        r == classify(w@),
{
    if word_is(w, "--") {
        TokenKind::Dash
    } else if word_is(w, "=>") {
        TokenKind::Arrow
    } else if word_is(w, ":") {
        TokenKind::Colon
    } else if word_is(w, "type") {
        TokenKind::Type
    } else if word_is(w, "match") {
        TokenKind::Match
    } else if word_is(w, "end") {
        TokenKind::End
    } else if word_is(w, "if") {
        TokenKind::If
    } else if word_is(w, "while") {
        TokenKind::While
    } else if word_is(w, "true") || word_is(w, "false") {
        TokenKind::BoolLiteral
    } else if int_text(w) {
        TokenKind::IntLiteral
    } else {
        TokenKind::Ident
    }
}

/// The string of the given characters.
pub fn text_of(chars: &Vec<char>) -> (r: String)
    ensures
        r@ == chars@,
{
    let mut out = String::new();
    let mut i: usize = 0;
    while i < chars.len()
        invariant
            i <= chars.len(),
            out@ == chars@.subrange(0, i as int),
        decreases chars.len() - i,
    {
        push_char(&mut out, chars[i]);
        assert(out@ =~= chars@.subrange(0, i + 1));
        i += 1;
    }
    assert(chars@.subrange(0, i as int) =~= chars@);
    out
}

/// Model of a lexer: the text, and where in it the lexer stands.
pub struct LexerModel {
    pub chars: Seq<char>,
    pub pos: int,
    pub line: usize,
    pub column: usize,
}

/// The lexer.
pub struct Lexer {
    chars: Vec<char>,
    pos: usize,
    line: usize,
    column: usize,
}

impl View for Lexer {
    type V = LexerModel;

    closed spec fn view(&self) -> LexerModel {
        LexerModel {
            chars: self.chars@,
            pos: self.pos as int,
            line: self.line,
            column: self.column,
        }
    }
}

impl Lexer {
    #[verifier::type_invariant]
    spec fn well_formed(self) -> bool {
        self.pos <= self.chars@.len()
    }

    /// A lexer at the start of a source text.
    pub fn new(input: &str) -> (r: Lexer)
        ensures
            r@ == (LexerModel { chars: input@, pos: 0, line: 1, column: 1 }),
    {
        Lexer { chars: chars_of(input), pos: 0, line: 1, column: 1 }
    }

    /// The tokens of the rest of the text, closed by the end-of-file
    /// token. The lexer then stands at the end of the text.
    pub fn tokenize(&mut self) -> (r: Vec<Token>)
        ensures
            tokens_model(r@) == lex(
                old(self)@.chars,
                old(self)@.pos,
                old(self)@.line,
                old(self)@.column,
                Seq::empty(),
            ),
            r@.len() > 0,
            r@[r@.len() - 1].kind == TokenKind::Eof,
            final(self)@.chars == old(self)@.chars,
            final(self)@.pos == old(self)@.chars.len(),
    {
        let mut tokens: Vec<Token> = Vec::new();
        assert(tokens_model(tokens@) =~= Seq::<TokenModel>::empty());
        proof {
            use_type_invariant(&*self);
        }
        while self.pos < self.chars.len()
            invariant
                self.pos <= self.chars.len(),
                self@.chars == old(self)@.chars,
                lex(
                    old(self)@.chars,
                    old(self)@.pos,
                    old(self)@.line,
                    old(self)@.column,
                    Seq::empty(),
                ) == lex(self@.chars, self@.pos, self@.line, self@.column, tokens_model(tokens@)),
            decreases self.chars.len() - self.pos,
        {
            let c = self.chars[self.pos];
            let line = self.line;
            let column = self.column;
            let ghost before = tokens_model(tokens@);
            if space(c) {
                self.step(c);
                self.pos += 1;
            } else if c == '#' {
                let ghost start = self.pos as int;
                self.pos += 1;
                let ghost target = line_end(self@.chars, self@.pos);
                while self.pos < self.chars.len() && self.chars[self.pos] != '\n'
                    invariant
                        start < self.pos <= self.chars.len(),
                        self@.chars == old(self)@.chars,
                        self.line == line,
                        self.column == column,
                        line_end(self@.chars, self@.pos) == target,
                    decreases self.chars.len() - self.pos,
                {
                    self.pos += 1;
                }
            } else if single(c).is_some() {
                let kind = match single(c) {
                    Some(k) => k,
                    None => TokenKind::Eof,
                };
                let mut lexeme = String::new();
                push_char(&mut lexeme, c);
                assert(lexeme@ =~= seq![c]);
                tokens.push(Token { kind, lexeme, line, column });
                assert(tokens_model(tokens@) =~= before.push(
                    TokenModel { kind, lexeme: seq![c], line, column },
                ));
                self.column = next_number(self.column);
                self.pos += 1;
            } else if c == '"' {
                self.column = next_number(self.column);
                self.pos += 1;
                let content = self.read_string();
                tokens.push(
                    Token { kind: TokenKind::StringLiteral, lexeme: content, line, column },
                );
                assert(tokens_model(tokens@) =~= before.push(
                    TokenModel { kind: TokenKind::StringLiteral, lexeme: content@, line, column },
                ));
            } else {
                let start = self.pos;
                let word = self.read_word();
                let kind = kind_of(&word);
                let lexeme = text_of(&word);
                tokens.push(Token { kind, lexeme, line, column });
                assert(tokens_model(tokens@) =~= before.push(
                    TokenModel { kind, lexeme: word@, line, column },
                ));
            }
        }
        let ghost before = tokens_model(tokens@);
        tokens.push(
            Token {
                kind: TokenKind::Eof,
                lexeme: String::new(),
                line: self.line,
                column: self.column,
            },
        );
        assert(tokens_model(tokens@) =~= before.push(
            TokenModel {
                kind: TokenKind::Eof,
                lexeme: Seq::empty(),
                line: self.line,
                column: self.column,
            },
        ));
        tokens
    }

    /// Moves the line and column over one character.
    fn step(&mut self, c: char)
        ensures
            (final(self).line, final(self).column) == after_char(
                c,
                old(self).line,
                old(self).column,
            ),
            final(self).chars == old(self).chars,
            final(self).pos == old(self).pos,
    {
        proof {
            use_type_invariant(&*self);
        }
        if c == '\n' {
            self.line = next_number(self.line);
            self.column = 1;
        } else {
            self.column = next_number(self.column);
        }
    }

    /// Reads the inside of a string literal and the quote that closes it.
    fn read_string(&mut self) -> (r: String)
        ensures
            final(self).chars == old(self).chars,
            final(self).pos <= final(self).chars.len(),
            (StringScan {
                content: r@,
                end: final(self).pos as int,
                line: final(self).line,
                column: final(self).column,
            }) == scan_string(
                old(self).chars@,
                old(self).pos as int,
                Seq::empty(),
                old(self).line,
                old(self).column,
            ),
            old(self).pos < old(self).chars.len() ==> old(self).pos < final(self).pos,
            old(self).pos <= final(self).pos,
    {
        let mut content = String::new();
        proof {
            use_type_invariant(&*self);
            lemma_scan_string(
                self.chars@,
                self.pos as int,
                Seq::empty(),
                self.line,
                self.column,
            );
        }
        while self.pos < self.chars.len()
            invariant
                old(self).pos <= self.pos <= self.chars.len(),
                self.chars == old(self).chars,
                scan_string(
                    old(self).chars@,
                    old(self).pos as int,
                    Seq::empty(),
                    old(self).line,
                    old(self).column,
                ) == scan_string(
                    self.chars@,
                    self.pos as int,
                    content@,
                    self.line,
                    self.column,
                ),
            decreases self.chars.len() - self.pos,
        {
            let c = self.chars[self.pos];
            if c == '"' {
                self.column = next_number(self.column);
                self.pos += 1;
                return content;
            }
            if c == '\\' && self.pos + 1 < self.chars.len() {
                let escaped = self.chars[self.pos + 1];
                self.step(c);
                self.step(escaped);
                let shown = if escaped == 'n' {
                    '\n'
                } else if escaped == 't' {
                    '\t'
                } else {
                    escaped
                };
                push_char(&mut content, shown);
                self.pos += 2;
            } else {
                self.step(c);
                push_char(&mut content, c);
                self.pos += 1;
            }
        }
        content
    }

    /// Reads the word that starts where the lexer stands.
    fn read_word(&mut self) -> (r: Vec<char>)
        requires
            old(self).pos < old(self).chars.len(),
        ensures
            final(self).chars == old(self).chars,
            final(self).line == old(self).line,
            final(self).pos as int == word_end(old(self).chars@, old(self).pos + 1),
            old(self).pos < final(self).pos <= final(self).chars.len(),
            r@ == old(self).chars@.subrange(old(self).pos as int, final(self).pos as int),
            final(self).column == shifted(old(self).column, final(self).pos - old(self).pos),
    {
        let start = self.pos;
        let mut word: Vec<char> = Vec::new();
        word.push(self.chars[self.pos]);
        self.pos += 1;
        assert(word@ =~= self.chars@.subrange(start as int, self.pos as int));
        while self.pos < self.chars.len() && !space(self.chars[self.pos]) && !delimiter(
            self.chars[self.pos],
        )
            invariant
                start < self.pos <= self.chars.len(),
                self.chars == old(self).chars,
                self.line == old(self).line,
                self.column == old(self).column,
                word@ == self.chars@.subrange(start as int, self.pos as int),
                word_end(self.chars@, start + 1) == word_end(self.chars@, self.pos as int),
            decreases self.chars.len() - self.pos,
        {
            word.push(self.chars[self.pos]);
            self.pos += 1;
            assert(word@ =~= self.chars@.subrange(start as int, self.pos as int));
        }
        let n = self.pos - start;
        self.column = if self.column <= usize::MAX - n {
            self.column + n
        } else {
            usize::MAX
        };
        word
    }
}

} // verus!
