//! The recursive descent parser.
//!
//! What each function reads is stated in [`crate::parser::grammar`], and
//! every function here is proved to read exactly that.

use vstd::prelude::*;
use crate::ast::{
    BranchModel, Expr, ExprModel, MatchBranch, Pattern, Program, ProgramModel, SourceLoc,
    TypeDef, TypeDefModel, Variant, VariantModel, WordDef, WordModel, branches_model,
    exprs_model, strings_model, typedefs_model, variants_model, words_model,
};
use crate::ast::types::{Effect, EffectModel, Type, TypeModel, types_model};
use crate::parser::grammar::{
    ParseErrorModel, at_end, block_at, body_until, branches_until, check, check_ident,
    digit_value, digits_value, effect_at, empty_program, error_at, expect, expect_ident,
    expect_ident_value, expr_at, exprs_until, fields_at, idents_until, int_of, is_type_variable,
    kind_at, kind_text, lexeme_at, loc_at, params_at, parse_error_text, program_from, type_at,
    typedef_at, types_until, variants_from, word_at,
};
use crate::parser::lexer::{Lexer, Token, TokenKind, TokenModel, tokens_model, tokens_of};
use crate::text::{chars_of, push_decimal, same_text};

verus! {

/// An error of the parser, with the line and column of the token that did
/// not fit.
#[derive(Debug, PartialEq)]
pub struct ParseError {
    pub message: String,
    pub line: usize,
    pub column: usize,
}

impl View for ParseError {
    type V = ParseErrorModel;

    open spec fn view(&self) -> ParseErrorModel {
        ParseErrorModel { message: self.message@, line: self.line, column: self.column }
    }
}

impl Clone for ParseError {
    fn clone(&self) -> (r: Self)
        ensures
            r@ == self@,
    {
        ParseError { message: self.message.clone(), line: self.line, column: self.column }
    }
}

impl ParseError {
    /// How the error is shown.
    pub fn to_string(&self) -> (r: String)
        ensures
            r@ == parse_error_text(self@),
    {
        let mut out = String::from_str("Parse error at ");
        push_decimal(&mut out, self.line as u128);
        out.append(":");
        push_decimal(&mut out, self.column as u128);
        out.append(": ");
        out.append(self.message.as_str());
        out
    }
}

/// Model of a parser: the tokens, the position of the next token, and the
/// name of the source file.
pub struct ParserModel {
    pub tokens: Seq<TokenModel>,
    pub current: int,
    pub file: Seq<char>,
}

/// The parser.
pub struct Parser {
    tokens: Vec<Token>,
    current: usize,
    file: String,
}

impl View for Parser {
    type V = ParserModel;

    closed spec fn view(&self) -> ParserModel {
        ParserModel {
            tokens: tokens_model(self.tokens@),
            current: self.current as int,
            file: self.file@,
        }
    }
}

/// Whether two parser states read the same tokens of the same file.
pub open spec fn same_input(a: ParserModel, b: ParserModel) -> bool {
    a.tokens == b.tokens && a.file == b.file
}

/// The numbers that digits write grow with the digits.
pub proof fn lemma_digits_value_grows(w: Seq<char>, acc: nat, i: int)
    requires
        0 <= i,
    ensures
        digits_value(w, acc, i) >= acc,
    decreases w.len() - i,
{
    if i < w.len() {
        lemma_digits_value_grows(w, acc * 10 + digit_value(w[i]), i + 1);
    }
}

/// The value of a decimal digit; zero for any other character.
fn digit_of(c: char) -> (r: u128)
    ensures
        r == digit_value(c),
        r <= 9,
{
    if c == '1' {
        1
    } else if c == '2' {
        2
    } else if c == '3' {
        3
    } else if c == '4' {
        4
    } else if c == '5' {
        5
    } else if c == '6' {
        6
    } else if c == '7' {
        7
    } else if c == '8' {
        8
    } else if c == '9' {
        9
    } else {
        0
    }
}

/// The integer that an integer literal writes, where it fits in 64 bits.
pub fn parse_int(lexeme: &str) -> (r: Option<i64>)
    ensures
        r == int_of(lexeme@),
{
    let w = chars_of(lexeme);
    let negative = w.len() > 0 && w[0] == '-';
    let start: usize = if negative {
        1
    } else {
        0
    };
    let limit: u128 = if negative {
        0x8000_0000_0000_0000
    } else {
        0x7fff_ffff_ffff_ffff
    };
    let mut acc: u128 = 0;
    let mut i: usize = start;
    while i < w.len()
        invariant
            start <= i,
            w@ == lexeme@,
            negative == (w@.len() > 0 && w@[0] == '-'),
            start == (if negative {
                1int
            } else {
                0int
            }),
            limit == (if negative {
                0x8000_0000_0000_0000u128
            } else {
                0x7fff_ffff_ffff_ffffu128
            }),
            acc <= limit,
            digits_value(w@, 0, start as int) == digits_value(w@, acc as nat, i as int),
        decreases w.len() - i,
    {
        acc = acc * 10 + digit_of(w[i]);
        if acc > limit {
            proof {
                lemma_digits_value_grows(w@, acc as nat, i + 1);
            }
            return None;
        }
        i += 1;
    }
    if negative {
        Some((-(acc as i128)) as i64)
    } else {
        Some(acc as i64)
    }
}

/// The name of a kind of token.
fn kind_name(kind: TokenKind) -> (r: &'static str)
    ensures
        r@ == kind_text(kind),
{
    match kind {
        TokenKind::Type => "Type",
        TokenKind::Colon => "Colon",
        TokenKind::LeftParen => "LeftParen",
        TokenKind::RightParen => "RightParen",
        TokenKind::LeftBracket => "LeftBracket",
        TokenKind::RightBracket => "RightBracket",
        TokenKind::Pipe => "Pipe",
        TokenKind::Dash => "Dash",
        TokenKind::Arrow => "Arrow",
        TokenKind::Match => "Match",
        TokenKind::End => "End",
        TokenKind::If => "If",
        TokenKind::While => "While",
        TokenKind::IntLiteral => "IntLiteral",
        TokenKind::BoolLiteral => "BoolLiteral",
        TokenKind::StringLiteral => "StringLiteral",
        TokenKind::Ident => "Ident",
        TokenKind::Eof => "Eof",
    }
}

/// Whether a name is that of a type variable.
fn type_variable(name: &str) -> (r: bool)
    ensures
        r == is_type_variable(name@),
{
    let n = name.unicode_len();
    if n == 0 {
        return false;
    }
    let c = name.get_char(0);
    (n == 1 && 'A' <= c && c <= 'Z') || ('a' <= c && c <= 'z')
}

impl Parser {
    #[verifier::type_invariant]
    spec fn well_formed(self) -> bool {
        &&& self.tokens@.len() > 0
        &&& self.tokens@[self.tokens@.len() - 1].kind == TokenKind::Eof
        &&& self.current < self.tokens@.len()
    }

    /// A parser at the start of a source text.
    pub fn new(input: &str) -> (r: Parser)
        ensures
            r@ == (ParserModel { tokens: tokens_of(input@), current: 0, file: "<input>"@ }),
    {
        Parser::new_with_filename(input, "<input>")
    }

    /// A parser at the start of the source text of the named file.
    pub fn new_with_filename(input: &str, filename: &str) -> (r: Parser)
        ensures
            r@ == (ParserModel { tokens: tokens_of(input@), current: 0, file: filename@ }),
    {
        let mut lexer = Lexer::new(input);
        let tokens = lexer.tokenize();
        Parser { tokens, current: 0, file: String::from_str(filename) }
    }

    /// The next token.
    fn peek(&self) -> (r: &Token)
        ensures
            0 <= self@.current < self@.tokens.len(),
            r@ == self@.tokens[self@.current],
            r.kind == kind_at(self@.tokens, self@.current),
            r.lexeme@ == lexeme_at(self@.tokens, self@.current),
    {
        proof {
            use_type_invariant(self);
        }
        &self.tokens[self.current]
    }

    /// Whether the tokens are used up.
    fn is_at_end(&self) -> (r: bool)
        ensures
            r == at_end(self@.tokens, self@.current),
    {
        self.peek().kind == TokenKind::Eof
    }

    /// Goes on to the token after the next one, unless the tokens are used
    /// up.
    fn advance(&mut self)
        ensures
            same_input(final(self)@, old(self)@),
            final(self)@.current == (if at_end(old(self)@.tokens, old(self)@.current) {
                old(self)@.current
            } else {
                old(self)@.current + 1
            }),
    {
        proof {
            use_type_invariant(&*self);
        }
        let n = self.tokens.len();
        if !self.is_at_end() && self.current < n {
            self.current += 1;
        }
    }

    /// Whether the next token is of the given kind.
    fn check(&self, kind: TokenKind) -> (r: bool)
        ensures
            r == check(self@.tokens, self@.current, kind),
    {
        if self.is_at_end() {
            return false;
        }
        self.peek().kind == kind
    }

    /// Whether the next token is the identifier of the given text.
    fn check_ident(&self, value: &str) -> (r: bool)
        ensures
            r == check_ident(self@.tokens, self@.current, value@),
    {
        if self.is_at_end() {
            return false;
        }
        let token = self.peek();
        token.kind == TokenKind::Ident && same_text(token.lexeme.as_str(), value)
    }

    /// The error with the given message at the next token.
    fn error(&self, message: &str) -> (e: ParseError)
        ensures
            e@ == error_at(self@.tokens, self@.current, message@),
    {
        let token = self.peek();
        ParseError { message: String::from_str(message), line: token.line, column: token.column }
    }

    /// The source location of the next token.
    fn loc(&self) -> (r: SourceLoc)
        ensures
            r@ == loc_at(self@.tokens, self@.file, self@.current),
    {
        let token = self.peek();
        SourceLoc { line: token.line, column: token.column, file: self.file.clone() }
    }

    /// Takes the next token, which must be of the given kind.
    fn consume(&mut self, kind: TokenKind, message: &str) -> (r: Result<(), ParseError>)
        ensures
            same_input(final(self)@, old(self)@),
            match r {
                Ok(_) => expect(old(self)@.tokens, old(self)@.current, kind, message@) == Ok::<
                    _,
                    ParseErrorModel,
                >(final(self)@.current) && final(self)@.current == old(self)@.current + 1,
                Err(e) => expect(old(self)@.tokens, old(self)@.current, kind, message@) == Err::<
                    int,
                    _,
                >(e@),
            },
    {
        if self.check(kind) {
            self.advance();
            Ok(())
        } else {
            Err(self.error(message))
        }
    }

    /// Takes the next token, which must be an identifier, and hands back
    /// its text.
    fn consume_ident(&mut self, message: &str) -> (r: Result<String, ParseError>)
        ensures
            same_input(final(self)@, old(self)@),
            match r {
                Ok(name) => expect_ident(old(self)@.tokens, old(self)@.current, message@) == Ok::<
                    _,
                    ParseErrorModel,
                >(name@) && final(self)@.current == old(self)@.current + 1,
                Err(e) => expect_ident(old(self)@.tokens, old(self)@.current, message@) == Err::<
                    Seq<char>,
                    _,
                >(e@),
            },
    {
        if self.peek().kind == TokenKind::Ident {
            let lexeme = self.peek().lexeme.clone();
            self.advance();
            Ok(lexeme)
        } else {
            Err(self.error(message))
        }
    }

    /// Takes the next token, which must be the identifier of the given
    /// text.
    fn consume_ident_value(&mut self, value: &str, message: &str) -> (r: Result<(), ParseError>)
        ensures
            same_input(final(self)@, old(self)@),
            match r {
                Ok(_) => expect_ident_value(
                    old(self)@.tokens,
                    old(self)@.current,
                    value@,
                    message@,
                ) == Ok::<_, ParseErrorModel>(final(self)@.current)
                    && final(self)@.current == old(self)@.current + 1,
                Err(e) => expect_ident_value(
                    old(self)@.tokens,
                    old(self)@.current,
                    value@,
                    message@,
                ) == Err::<int, _>(e@),
            },
    {
        if self.check_ident(value) {
            self.advance();
            Ok(())
        } else {
            Err(self.error(message))
        }
    }

    /// Reads a type.
    fn parse_type(&mut self) -> (r: Result<Type, ParseError>)
        ensures
            same_input(final(self)@, old(self)@),
            match r {
                Ok(t) => type_at(old(self)@.tokens, old(self)@.current) == Ok::<
                    _,
                    ParseErrorModel,
                >((t@, final(self)@.current)) && final(self)@.current > old(self)@.current,
                Err(e) => type_at(old(self)@.tokens, old(self)@.current) == Err::<
                    (TypeModel, int),
                    _,
                >(e@),
            },
        decreases old(self)@.tokens.len() - old(self)@.current, 0nat,
    {
        let name = match self.consume_ident("Expected type name") {
            Ok(n) => n,
            Err(e) => {
                return Err(e);
            },
        };
        if same_text(name.as_str(), "Int") {
            Ok(Type::Int)
        } else if same_text(name.as_str(), "Bool") {
            Ok(Type::Bool)
        } else if same_text(name.as_str(), "String") {
            Ok(Type::String)
        } else if type_variable(name.as_str()) {
            Ok(Type::Var(name))
        } else if self.check(TokenKind::LeftParen) {
            self.advance();
            let args = match self.parse_types_until(TokenKind::RightParen) {
                Ok(a) => a,
                Err(e) => {
                    return Err(e);
                },
            };
            match self.consume(TokenKind::RightParen, "Expected ')'") {
                Ok(_) => {},
                Err(e) => {
                    return Err(e);
                },
            }
            Ok(Type::Named { name, args })
        } else {
            let args: Vec<Type> = Vec::new();
            assert(types_model(args@) =~= Seq::empty());
            Ok(Type::Named { name, args })
        }
    }

    /// Reads types up to the next token of kind `stop`.
    fn parse_types_until(&mut self, stop: TokenKind) -> (r: Result<Vec<Type>, ParseError>)
        ensures
            same_input(final(self)@, old(self)@),
            match r {
                Ok(v) => types_until(old(self)@.tokens, old(self)@.current, stop, Seq::empty())
                    == Ok::<_, ParseErrorModel>((types_model(v@), final(self)@.current))
                    && final(self)@.current >= old(self)@.current,
                Err(e) => types_until(old(self)@.tokens, old(self)@.current, stop, Seq::empty())
                    == Err::<(Seq<TypeModel>, int), _>(e@),
            },
        decreases old(self)@.tokens.len() - old(self)@.current, 1nat,
    {
        let mut types: Vec<Type> = Vec::new();
        assert(types_model(types@) =~= Seq::empty());
        loop
            invariant
                same_input(self@, old(self)@),
                self@.current >= old(self)@.current,
                types_until(old(self)@.tokens, old(self)@.current, stop, Seq::empty())
                    == types_until(self@.tokens, self@.current, stop, types_model(types@)),
            decreases self@.tokens.len() - self@.current,
        {
            proof {
                use_type_invariant(&*self);
            }
            if self.check(stop) || self.is_at_end() {
                return Ok(types);
            }
            let t = match self.parse_type() {
                Ok(t) => t,
                Err(e) => {
                    return Err(e);
                },
            };
            proof {
                use_type_invariant(&*self);
            }
            let ghost before = types_model(types@);
            types.push(t);
            assert(types_model(types@) =~= before.push(t@));
        }
    }

    /// Reads an effect: types, `--`, types.
    fn parse_effect(&mut self) -> (r: Result<Effect, ParseError>)
        ensures
            same_input(final(self)@, old(self)@),
            match r {
                Ok(eff) => effect_at(old(self)@.tokens, old(self)@.current) == Ok::<
                    _,
                    ParseErrorModel,
                >((eff@, final(self)@.current)) && final(self)@.current > old(self)@.current,
                Err(e) => effect_at(old(self)@.tokens, old(self)@.current) == Err::<
                    (EffectModel, int),
                    _,
                >(e@),
            },
    {
        let inputs = match self.parse_types_until(TokenKind::Dash) {
            Ok(v) => v,
            Err(e) => {
                return Err(e);
            },
        };
        match self.consume(TokenKind::Dash, "Expected '--' in effect signature") {
            Ok(_) => {},
            Err(e) => {
                return Err(e);
            },
        }
        let outputs = match self.parse_types_until(TokenKind::RightParen) {
            Ok(v) => v,
            Err(e) => {
                return Err(e);
            },
        };
        Ok(Effect::from_vecs(inputs, outputs))
    }

    /// Reads the parameters of a type, if any stand in parentheses.
    fn parse_params(&mut self) -> (r: Result<Vec<String>, ParseError>)
        ensures
            same_input(final(self)@, old(self)@),
            match r {
                Ok(v) => params_at(old(self)@.tokens, old(self)@.current) == Ok::<
                    _,
                    ParseErrorModel,
                >((strings_model(v@), final(self)@.current))
                    && final(self)@.current >= old(self)@.current,
                Err(e) => params_at(old(self)@.tokens, old(self)@.current) == Err::<
                    (Seq<Seq<char>>, int),
                    _,
                >(e@),
            },
    {
        let mut params: Vec<String> = Vec::new();
        assert(strings_model(params@) =~= Seq::<Seq<char>>::empty());
        if !self.check(TokenKind::LeftParen) {
            return Ok(params);
        }
        self.advance();
        let ghost start = self@.current;
        loop
            invariant
                same_input(self@, old(self)@),
                self@.current >= start,
                start == old(self)@.current + 1,
                check(old(self)@.tokens, old(self)@.current, TokenKind::LeftParen),
                idents_until(old(self)@.tokens, start, Seq::empty()) == idents_until(
                    self@.tokens,
                    self@.current,
                    strings_model(params@),
                ),
            decreases self@.tokens.len() - self@.current,
        {
            proof {
                use_type_invariant(&*self);
            }
            if self.check(TokenKind::RightParen) || self.is_at_end() {
                match self.consume(TokenKind::RightParen, "Expected ')'") {
                    Ok(_) => {},
                    Err(e) => {
                        return Err(e);
                    },
                }
                return Ok(params);
            }
            let name = match self.consume_ident("Expected type parameter") {
                Ok(n) => n,
                Err(e) => {
                    return Err(e);
                },
            };
            proof {
                use_type_invariant(&*self);
            }
            let ghost before = strings_model(params@);
            params.push(name);
            assert(strings_model(params@) =~= before.push(name@));
        }
    }

    /// Reads the field types of a variant, if any stand in parentheses.
    fn parse_fields(&mut self) -> (r: Result<Vec<Type>, ParseError>)
        ensures
            same_input(final(self)@, old(self)@),
            match r {
                Ok(v) => fields_at(old(self)@.tokens, old(self)@.current) == Ok::<
                    _,
                    ParseErrorModel,
                >((types_model(v@), final(self)@.current))
                    && final(self)@.current >= old(self)@.current,
                Err(e) => fields_at(old(self)@.tokens, old(self)@.current) == Err::<
                    (Seq<TypeModel>, int),
                    _,
                >(e@),
            },
    {
        if !self.check(TokenKind::LeftParen) {
            let fields: Vec<Type> = Vec::new();
            assert(types_model(fields@) =~= Seq::empty());
            return Ok(fields);
        }
        self.advance();
        let fields = match self.parse_types_until(TokenKind::RightParen) {
            Ok(v) => v,
            Err(e) => {
                return Err(e);
            },
        };
        match self.consume(TokenKind::RightParen, "Expected ')'") {
            Ok(_) => {},
            Err(e) => {
                return Err(e);
            },
        }
        Ok(fields)
    }

    /// Reads the variants of a type, separated by `|`.
    fn parse_variants(&mut self) -> (r: Result<Vec<Variant>, ParseError>)
        ensures
            same_input(final(self)@, old(self)@),
            match r {
                Ok(v) => variants_from(old(self)@.tokens, old(self)@.current, Seq::empty())
                    == Ok::<_, ParseErrorModel>((variants_model(v@), final(self)@.current))
                    && final(self)@.current > old(self)@.current,
                Err(e) => variants_from(old(self)@.tokens, old(self)@.current, Seq::empty())
                    == Err::<(Seq<VariantModel>, int), _>(e@),
            },
    {
        let mut variants: Vec<Variant> = Vec::new();
        assert(variants_model(variants@) =~= Seq::empty());
        loop
            invariant
                same_input(self@, old(self)@),
                self@.current >= old(self)@.current,
                variants_from(old(self)@.tokens, old(self)@.current, Seq::empty())
                    == variants_from(self@.tokens, self@.current, variants_model(variants@)),
            decreases self@.tokens.len() - self@.current,
        {
            proof {
                use_type_invariant(&*self);
            }
            let name = match self.consume_ident("Expected variant name") {
                Ok(n) => n,
                Err(e) => {
                    return Err(e);
                },
            };
            let fields = match self.parse_fields() {
                Ok(f) => f,
                Err(e) => {
                    return Err(e);
                },
            };
            proof {
                use_type_invariant(&*self);
            }
            let ghost before = variants_model(variants@);
            let ghost added = VariantModel { name: name@, fields: types_model(fields@) };
            variants.push(Variant { name, fields });
            assert(variants_model(variants@) =~= before.push(added));
            if self.check(TokenKind::Pipe) {
                self.advance();
            } else {
                return Ok(variants);
            }
        }
    }

    /// Reads a type definition.
    fn parse_type_def(&mut self) -> (r: Result<TypeDef, ParseError>)
        ensures
            same_input(final(self)@, old(self)@),
            match r {
                Ok(d) => typedef_at(old(self)@.tokens, old(self)@.current) == Ok::<
                    _,
                    ParseErrorModel,
                >((d@, final(self)@.current)) && final(self)@.current > old(self)@.current,
                Err(e) => typedef_at(old(self)@.tokens, old(self)@.current) == Err::<
                    (TypeDefModel, int),
                    _,
                >(e@),
            },
    {
        match self.consume(TokenKind::Type, "Expected 'type'") {
            Ok(_) => {},
            Err(e) => {
                return Err(e);
            },
        }
        let name = match self.consume_ident("Expected type name") {
            Ok(n) => n,
            Err(e) => {
                return Err(e);
            },
        };
        let type_params = match self.parse_params() {
            Ok(p) => p,
            Err(e) => {
                return Err(e);
            },
        };
        match self.consume(TokenKind::Pipe, "Expected '|' before first variant") {
            Ok(_) => {},
            Err(e) => {
                return Err(e);
            },
        }
        let variants = match self.parse_variants() {
            Ok(v) => v,
            Err(e) => {
                return Err(e);
            },
        };
        Ok(TypeDef { name, type_params, variants })
    }

    /// Reads a word definition.
    fn parse_word_def(&mut self) -> (r: Result<WordDef, ParseError>)
        ensures
            same_input(final(self)@, old(self)@),
            match r {
                Ok(w) => word_at(old(self)@.tokens, old(self)@.file, old(self)@.current) == Ok::<
                    _,
                    ParseErrorModel,
                >((w@, final(self)@.current)) && final(self)@.current > old(self)@.current,
                Err(e) => word_at(old(self)@.tokens, old(self)@.file, old(self)@.current) == Err::<
                    (WordModel, int),
                    _,
                >(e@),
            },
    {
        let loc = self.loc();
        match self.consume(TokenKind::Colon, "Expected ':'") {
            Ok(_) => {},
            Err(e) => {
                return Err(e);
            },
        }
        let name = match self.consume_ident("Expected word name") {
            Ok(n) => n,
            Err(e) => {
                return Err(e);
            },
        };
        match self.consume(TokenKind::LeftParen, "Expected '(' for effect signature") {
            Ok(_) => {},
            Err(e) => {
                return Err(e);
            },
        }
        let effect = match self.parse_effect() {
            Ok(eff) => eff,
            Err(e) => {
                return Err(e);
            },
        };
        match self.consume(TokenKind::RightParen, "Expected ')' after effect signature") {
            Ok(_) => {},
            Err(e) => {
                return Err(e);
            },
        }
        let body = match self.parse_body() {
            Ok(b) => b,
            Err(e) => {
                return Err(e);
            },
        };
        match self.consume_ident_value(";", "Expected ';' at end of word definition") {
            Ok(_) => {},
            Err(e) => {
                return Err(e);
            },
        }
        Ok(WordDef { name, effect, body, loc })
    }

    /// Reads the body of a word: expressions up to the next `;`.
    fn parse_body(&mut self) -> (r: Result<Vec<Expr>, ParseError>)
        ensures
            same_input(final(self)@, old(self)@),
            match r {
                Ok(v) => body_until(
                    old(self)@.tokens,
                    old(self)@.file,
                    old(self)@.current,
                    Seq::empty(),
                ) == Ok::<_, ParseErrorModel>((exprs_model(v@), final(self)@.current))
                    && final(self)@.current >= old(self)@.current,
                Err(e) => body_until(
                    old(self)@.tokens,
                    old(self)@.file,
                    old(self)@.current,
                    Seq::empty(),
                ) == Err::<(Seq<ExprModel>, int), _>(e@),
            },
    {
        let mut exprs: Vec<Expr> = Vec::new();
        assert(exprs_model(exprs@) =~= Seq::empty());
        loop
            invariant
                same_input(self@, old(self)@),
                self@.current >= old(self)@.current,
                body_until(old(self)@.tokens, old(self)@.file, old(self)@.current, Seq::empty())
                    == body_until(self@.tokens, self@.file, self@.current, exprs_model(exprs@)),
            decreases self@.tokens.len() - self@.current,
        {
            proof {
                use_type_invariant(&*self);
            }
            if self.check_ident(";") || self.is_at_end() {
                return Ok(exprs);
            }
            let e = match self.parse_expr() {
                Ok(e) => e,
                Err(err) => {
                    return Err(err);
                },
            };
            proof {
                use_type_invariant(&*self);
            }
            let ghost before = exprs_model(exprs@);
            exprs.push(e);
            assert(exprs_model(exprs@) =~= before.push(e@));
        }
    }

    /// Reads an expression.
    fn parse_expr(&mut self) -> (r: Result<Expr, ParseError>)
        ensures
            same_input(final(self)@, old(self)@),
            match r {
                Ok(e) => expr_at(old(self)@.tokens, old(self)@.file, old(self)@.current) == Ok::<
                    _,
                    ParseErrorModel,
                >((e@, final(self)@.current)) && final(self)@.current > old(self)@.current,
                Err(e) => expr_at(old(self)@.tokens, old(self)@.file, old(self)@.current) == Err::<
                    (ExprModel, int),
                    _,
                >(e@),
            },
        decreases old(self)@.tokens.len() - old(self)@.current, 3nat,
    {
        proof {
            use_type_invariant(&*self);
        }
        let loc = self.loc();
        let kind = self.peek().kind;
        match kind {
            TokenKind::IntLiteral => {
                let value = match parse_int(self.peek().lexeme.as_str()) {
                    Some(v) => v,
                    None => {
                        let mut message = String::from_str("Invalid integer: ");
                        message.append(self.peek().lexeme.as_str());
                        let token = self.peek();
                        return Err(ParseError { message, line: token.line, column: token.column });
                    },
                };
                self.advance();
                Ok(Expr::IntLit(value, loc))
            },
            TokenKind::BoolLiteral => {
                let value = same_text(self.peek().lexeme.as_str(), "true");
                self.advance();
                Ok(Expr::BoolLit(value, loc))
            },
            TokenKind::StringLiteral => {
                let value = self.peek().lexeme.clone();
                self.advance();
                Ok(Expr::StringLit(value, loc))
            },
            TokenKind::Ident => {
                let name = self.peek().lexeme.clone();
                self.advance();
                Ok(Expr::WordCall(name, loc))
            },
            TokenKind::LeftBracket => self.parse_block("Expected '['"),
            TokenKind::Match => {
                self.advance();
                let branches = match self.parse_branches() {
                    Ok(b) => b,
                    Err(e) => {
                        return Err(e);
                    },
                };
                match self.consume(TokenKind::End, "Expected 'end'") {
                    Ok(_) => {},
                    Err(e) => {
                        return Err(e);
                    },
                }
                Ok(Expr::Match { branches, loc })
            },
            TokenKind::If => {
                self.advance();
                let then_branch = match self.parse_block("Expected '[' for then branch") {
                    Ok(b) => b,
                    Err(e) => {
                        return Err(e);
                    },
                };
                proof {
                    use_type_invariant(&*self);
                }
                let else_branch = match self.parse_block("Expected '[' for else branch") {
                    Ok(b) => b,
                    Err(e) => {
                        return Err(e);
                    },
                };
                Ok(
                    Expr::If {
                        then_branch: Box::new(then_branch),
                        else_branch: Box::new(else_branch),
                        loc,
                    },
                )
            },
            TokenKind::While => {
                self.advance();
                let condition = match self.parse_block("Expected '[' for condition") {
                    Ok(b) => b,
                    Err(e) => {
                        return Err(e);
                    },
                };
                proof {
                    use_type_invariant(&*self);
                }
                let body = match self.parse_block("Expected '[' for body") {
                    Ok(b) => b,
                    Err(e) => {
                        return Err(e);
                    },
                };
                Ok(Expr::While { condition: Box::new(condition), body: Box::new(body), loc })
            },
            _ => {
                let mut message = String::from_str("Unexpected token: ");
                message.append(kind_name(kind));
                let token = self.peek();
                Err(ParseError { message, line: token.line, column: token.column })
            },
        }
    }

    /// Reads a quotation: `[`, expressions, `]`.
    fn parse_block(&mut self, message: &str) -> (r: Result<Expr, ParseError>)
        ensures
            same_input(final(self)@, old(self)@),
            match r {
                Ok(e) => block_at(
                    old(self)@.tokens,
                    old(self)@.file,
                    old(self)@.current,
                    message@,
                ) == Ok::<_, ParseErrorModel>((e@, final(self)@.current)) && final(self)@.current
                    > old(self)@.current,
                Err(e) => block_at(
                    old(self)@.tokens,
                    old(self)@.file,
                    old(self)@.current,
                    message@,
                ) == Err::<(ExprModel, int), _>(e@),
            },
        decreases old(self)@.tokens.len() - old(self)@.current, 2nat,
    {
        let loc = self.loc();
        match self.consume(TokenKind::LeftBracket, message) {
            Ok(_) => {},
            Err(e) => {
                return Err(e);
            },
        }
        let body = match self.parse_exprs_until() {
            Ok(b) => b,
            Err(e) => {
                return Err(e);
            },
        };
        match self.consume(TokenKind::RightBracket, "Expected ']'") {
            Ok(_) => {},
            Err(e) => {
                return Err(e);
            },
        }
        Ok(Expr::Quotation(body, loc))
    }

    /// Reads expressions up to the next `]`.
    fn parse_exprs_until(&mut self) -> (r: Result<Vec<Expr>, ParseError>)
        ensures
            same_input(final(self)@, old(self)@),
            match r {
                Ok(v) => exprs_until(
                    old(self)@.tokens,
                    old(self)@.file,
                    old(self)@.current,
                    Seq::empty(),
                ) == Ok::<_, ParseErrorModel>((exprs_model(v@), final(self)@.current))
                    && final(self)@.current >= old(self)@.current,
                Err(e) => exprs_until(
                    old(self)@.tokens,
                    old(self)@.file,
                    old(self)@.current,
                    Seq::empty(),
                ) == Err::<(Seq<ExprModel>, int), _>(e@),
            },
        decreases old(self)@.tokens.len() - old(self)@.current, 4nat,
    {
        let mut exprs: Vec<Expr> = Vec::new();
        assert(exprs_model(exprs@) =~= Seq::empty());
        loop
            invariant
                same_input(self@, old(self)@),
                self@.current >= old(self)@.current,
                exprs_until(old(self)@.tokens, old(self)@.file, old(self)@.current, Seq::empty())
                    == exprs_until(self@.tokens, self@.file, self@.current, exprs_model(exprs@)),
            decreases self@.tokens.len() - self@.current,
        {
            proof {
                use_type_invariant(&*self);
            }
            if self.check(TokenKind::RightBracket) || self.is_at_end() {
                return Ok(exprs);
            }
            let e = match self.parse_expr() {
                Ok(e) => e,
                Err(err) => {
                    return Err(err);
                },
            };
            proof {
                use_type_invariant(&*self);
            }
            let ghost before = exprs_model(exprs@);
            exprs.push(e);
            assert(exprs_model(exprs@) =~= before.push(e@));
        }
    }

    /// Reads the branches of a pattern match, up to the next `end`.
    fn parse_branches(&mut self) -> (r: Result<Vec<MatchBranch>, ParseError>)
        ensures
            same_input(final(self)@, old(self)@),
            match r {
                Ok(v) => branches_until(
                    old(self)@.tokens,
                    old(self)@.file,
                    old(self)@.current,
                    Seq::empty(),
                ) == Ok::<_, ParseErrorModel>((branches_model(v@), final(self)@.current))
                    && final(self)@.current >= old(self)@.current,
                Err(e) => branches_until(
                    old(self)@.tokens,
                    old(self)@.file,
                    old(self)@.current,
                    Seq::empty(),
                ) == Err::<(Seq<BranchModel>, int), _>(e@),
            },
        decreases old(self)@.tokens.len() - old(self)@.current, 5nat,
    {
        let mut branches: Vec<MatchBranch> = Vec::new();
        assert(branches_model(branches@) =~= Seq::empty());
        loop
            invariant
                same_input(self@, old(self)@),
                self@.current >= old(self)@.current,
                branches_until(
                    old(self)@.tokens,
                    old(self)@.file,
                    old(self)@.current,
                    Seq::empty(),
                ) == branches_until(
                    self@.tokens,
                    self@.file,
                    self@.current,
                    branches_model(branches@),
                ),
            decreases self@.tokens.len() - self@.current,
        {
            proof {
                use_type_invariant(&*self);
            }
            if self.check(TokenKind::End) || self.is_at_end() {
                return Ok(branches);
            }
            let name = match self.consume_ident("Expected variant name") {
                Ok(n) => n,
                Err(e) => {
                    return Err(e);
                },
            };
            match self.consume(TokenKind::Arrow, "Expected '=>'") {
                Ok(_) => {},
                Err(e) => {
                    return Err(e);
                },
            }
            match self.consume(TokenKind::LeftBracket, "Expected '[' for branch body") {
                Ok(_) => {},
                Err(e) => {
                    return Err(e);
                },
            }
            let body = match self.parse_exprs_until() {
                Ok(b) => b,
                Err(e) => {
                    return Err(e);
                },
            };
            match self.consume(TokenKind::RightBracket, "Expected ']'") {
                Ok(_) => {},
                Err(e) => {
                    return Err(e);
                },
            }
            proof {
                use_type_invariant(&*self);
            }
            let ghost before = branches_model(branches@);
            let ghost added = BranchModel { variant: name@, body: exprs_model(body@) };
            branches.push(MatchBranch { pattern: Pattern::Variant { name }, body });
            assert(branches_model(branches@) =~= before.push(added));
        }
    }

    /// Reads a program: type definitions and word definitions, to the end
    /// of the tokens.
    pub fn parse(&mut self) -> (r: Result<Program, ParseError>)
        ensures
            same_input(final(self)@, old(self)@),
            match r {
                Ok(p) => program_from(
                    old(self)@.tokens,
                    old(self)@.file,
                    old(self)@.current,
                    empty_program(),
                ) == Ok::<_, ParseErrorModel>(p@),
                Err(e) => program_from(
                    old(self)@.tokens,
                    old(self)@.file,
                    old(self)@.current,
                    empty_program(),
                ) == Err::<ProgramModel, _>(e@),
            },
    {
        let mut type_defs: Vec<TypeDef> = Vec::new();
        let mut word_defs: Vec<WordDef> = Vec::new();
        assert(typedefs_model(type_defs@) =~= Seq::empty());
        assert(words_model(word_defs@) =~= Seq::empty());
        loop
            invariant
                same_input(self@, old(self)@),
                program_from(
                    old(self)@.tokens,
                    old(self)@.file,
                    old(self)@.current,
                    empty_program(),
                ) == program_from(
                    self@.tokens,
                    self@.file,
                    self@.current,
                    ProgramModel {
                        type_defs: typedefs_model(type_defs@),
                        word_defs: words_model(word_defs@),
                    },
                ),
            decreases self@.tokens.len() - self@.current,
        {
            proof {
                use_type_invariant(&*self);
            }
            if self.is_at_end() {
                return Ok(Program { type_defs, word_defs });
            }
            if self.check(TokenKind::Type) {
                let d = match self.parse_type_def() {
                    Ok(d) => d,
                    Err(e) => {
                        return Err(e);
                    },
                };
                let ghost before = typedefs_model(type_defs@);
                type_defs.push(d);
                assert(typedefs_model(type_defs@) =~= before.push(d@));
            } else if self.check(TokenKind::Colon) {
                let w = match self.parse_word_def() {
                    Ok(w) => w,
                    Err(e) => {
                        return Err(e);
                    },
                };
                let ghost before = words_model(word_defs@);
                word_defs.push(w);
                assert(words_model(word_defs@) =~= before.push(w@));
            } else {
                return Err(self.error("Expected 'type' or ':'"));
            }
            proof {
                use_type_invariant(&*self);
            }
        }
    }
}

} // verus!
