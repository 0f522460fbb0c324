//! The grammar of Cem, as mathematics: what each syntactic form that starts
//! at a position of the token list is, and where it ends.
//!
//! Every function here takes the token list and a position and gives the
//! form that starts there together with the position after it, or the
//! error of the first token that does not fit.

use vstd::prelude::*;
use crate::ast::{
    BranchModel, ExprModel, LocModel, ProgramModel, TypeDefModel, VariantModel, WordModel,
};
use crate::ast::types::{EffectModel, TypeModel, effect_of};
use crate::parser::lexer::{TokenKind, TokenModel};
use crate::text::decimal;

verus! {

/// Model of a parse error.
pub struct ParseErrorModel {
    pub message: Seq<char>,
    pub line: usize,
    pub column: usize,
}

/// The kind of the token at a position; past the end it is the end of file.
pub open spec fn kind_at(ts: Seq<TokenModel>, pos: int) -> TokenKind {
    if 0 <= pos < ts.len() {
        ts[pos].kind
    } else {
        TokenKind::Eof
    }
}

/// The text of the token at a position.
pub open spec fn lexeme_at(ts: Seq<TokenModel>, pos: int) -> Seq<char> {
    if 0 <= pos < ts.len() {
        ts[pos].lexeme
    } else {
        Seq::empty()
    }
}

/// The source location of the token at a position.
pub open spec fn loc_at(ts: Seq<TokenModel>, file: Seq<char>, pos: int) -> LocModel {
    if 0 <= pos < ts.len() {
        LocModel { line: ts[pos].line, column: ts[pos].column, file }
    } else {
        LocModel { line: 0, column: 0, file }
    }
}

/// Whether the tokens are used up at a position.
pub open spec fn at_end(ts: Seq<TokenModel>, pos: int) -> bool {
    kind_at(ts, pos) == TokenKind::Eof
}

/// Whether the token at a position is of the given kind.
pub open spec fn check(ts: Seq<TokenModel>, pos: int, kind: TokenKind) -> bool {
    !at_end(ts, pos) && kind_at(ts, pos) == kind
}

/// Whether the token at a position is the identifier of the given text.
pub open spec fn check_ident(ts: Seq<TokenModel>, pos: int, value: Seq<char>) -> bool {
    !at_end(ts, pos) && kind_at(ts, pos) == TokenKind::Ident && lexeme_at(ts, pos) == value
}

/// The error with the given message at the token at a position.
pub open spec fn error_at(ts: Seq<TokenModel>, pos: int, message: Seq<char>) -> ParseErrorModel {
    ParseErrorModel {
        message,
        line: loc_at(ts, Seq::empty(), pos).line,
        column: loc_at(ts, Seq::empty(), pos).column,
    }
}

/// The error of a form that ends where it starts. No token list gives it,
/// since every form takes at least one token: it closes the definitions
/// below, which go on only behind a form that has taken a token.
pub open spec fn stuck(ts: Seq<TokenModel>, pos: int) -> ParseErrorModel {
    error_at(ts, pos, "Parser made no progress"@)
}

/// The position after a token of the given kind at `pos`, or the error with
/// the given message.
pub open spec fn expect(
    ts: Seq<TokenModel>,
    pos: int,
    kind: TokenKind,
    message: Seq<char>,
) -> Result<
    int,
    ParseErrorModel,
> {
    if check(ts, pos, kind) {
        Ok(pos + 1)
    } else {
        Err(error_at(ts, pos, message))
    }
}

/// The text of the identifier at `pos`, or the error with the given
/// message.
pub open spec fn expect_ident(ts: Seq<TokenModel>, pos: int, message: Seq<char>) -> Result<
    Seq<char>,
    ParseErrorModel,
> {
    if kind_at(ts, pos) == TokenKind::Ident {
        Ok(lexeme_at(ts, pos))
    } else {
        Err(error_at(ts, pos, message))
    }
}

/// The position after the identifier of the given text at `pos`, or the
/// error with the given message.
pub open spec fn expect_ident_value(
    ts: Seq<TokenModel>,
    pos: int,
    value: Seq<char>,
    message: Seq<char>,
) -> Result<int, ParseErrorModel> {
    if check_ident(ts, pos, value) {
        Ok(pos + 1)
    } else {
        Err(error_at(ts, pos, message))
    }
}

/// The name of a kind of token.
pub open spec fn kind_text(kind: TokenKind) -> Seq<char> {
    match kind {
        TokenKind::Type => "Type"@,
        TokenKind::Colon => "Colon"@,
        TokenKind::LeftParen => "LeftParen"@,
        TokenKind::RightParen => "RightParen"@,
        TokenKind::LeftBracket => "LeftBracket"@,
        TokenKind::RightBracket => "RightBracket"@,
        TokenKind::Pipe => "Pipe"@,
        TokenKind::Dash => "Dash"@,
        TokenKind::Arrow => "Arrow"@,
        TokenKind::Match => "Match"@,
        TokenKind::End => "End"@,
        TokenKind::If => "If"@,
        TokenKind::While => "While"@,
        TokenKind::IntLiteral => "IntLiteral"@,
        TokenKind::BoolLiteral => "BoolLiteral"@,
        TokenKind::StringLiteral => "StringLiteral"@,
        TokenKind::Ident => "Ident"@,
        TokenKind::Eof => "Eof"@,
    }
}

/// The value of a decimal digit.
pub open spec fn digit_value(c: char) -> nat {
    if c == '1' {
        1
    } else if c == '2' {
        2
    } else if c == '3' {
        3
    } else if c == '4' {
        4
    } else if c == '5' {
        5
    } else if c == '6' {
        6
    } else if c == '7' {
        7
    } else if c == '8' {
        8
    } else if c == '9' {
        9
    } else {
        0
    }
}

/// The number that the digits from position `i` on write, behind digits
/// that wrote `acc`.
pub open spec fn digits_value(w: Seq<char>, acc: nat, i: int) -> nat
    decreases w.len() - i,
{
    if i < 0 || i >= w.len() {
        acc
    } else {
        digits_value(w, acc * 10 + digit_value(w[i]), i + 1)
    }
}

/// The integer that an integer literal writes, where it fits in 64 bits.
pub open spec fn int_of(w: Seq<char>) -> Option<i64> {
    if w.len() > 0 && w[0] == '-' {
        if digits_value(w, 0, 1) <= 0x8000_0000_0000_0000 {
            Some((-digits_value(w, 0, 1)) as i64)
        } else {
            None
        }
    } else {
        if digits_value(w, 0, 0) <= 0x7fff_ffff_ffff_ffff {
            Some(digits_value(w, 0, 0) as i64)
        } else {
            None
        }
    }
}

/// Whether a name is that of a type variable: one upper-case letter, or a
/// name that starts with a lower-case letter.
pub open spec fn is_type_variable(name: Seq<char>) -> bool {
    name.len() > 0 && ((name.len() == 1 && 'A' <= name[0] <= 'Z') || 'a' <= name[0] <= 'z')
}

/// The type that starts at `pos`.
pub open spec fn type_at(ts: Seq<TokenModel>, pos: int) -> Result<(TypeModel, int), ParseErrorModel>
    decreases ts.len() - pos, 0nat,
{
    match expect_ident(ts, pos, "Expected type name"@) {
        Err(e) => Err(e),
        Ok(name) => if name == "Int"@ {
            Ok((TypeModel::Int, pos + 1))
        } else if name == "Bool"@ {
            Ok((TypeModel::Bool, pos + 1))
        } else if name == "String"@ {
            Ok((TypeModel::String, pos + 1))
        } else if is_type_variable(name) {
            Ok((TypeModel::Var(name), pos + 1))
        } else if check(ts, pos + 1, TokenKind::LeftParen) {
            match types_until(ts, pos + 2, TokenKind::RightParen, Seq::empty()) {
                Err(e) => Err(e),
                Ok((args, p)) => match expect(ts, p, TokenKind::RightParen, "Expected ')'"@) {
                    Err(e) => Err(e),
                    Ok(q) => Ok((TypeModel::Named { name, args }, q)),
                },
            }
        } else {
            Ok((TypeModel::Named { name, args: Seq::empty() }, pos + 1))
        },
    }
}

/// The types that stand from `pos` up to the next token of kind `stop` or
/// the end, added to `acc`.
pub open spec fn types_until(
    ts: Seq<TokenModel>,
    pos: int,
    stop: TokenKind,
    acc: Seq<TypeModel>,
) -> Result<
    (Seq<TypeModel>, int),
    ParseErrorModel,
>
    decreases ts.len() - pos, 1nat,
{
    if check(ts, pos, stop) || at_end(ts, pos) {
        Ok((acc, pos))
    } else {
        match type_at(ts, pos) {
            Err(e) => Err(e),
            Ok((t, p)) => if p <= pos || p > ts.len() {
                Err(stuck(ts, pos))
            } else {
                types_until(ts, p, stop, acc.push(t))
            },
        }
    }
}

/// The effect that starts at `pos`: types, `--`, types.
pub open spec fn effect_at(ts: Seq<TokenModel>, pos: int) -> Result<
    (EffectModel, int),
    ParseErrorModel,
> {
    match types_until(ts, pos, TokenKind::Dash, Seq::empty()) {
        Err(e) => Err(e),
        Ok((inputs, p)) => match expect(
            ts,
            p,
            TokenKind::Dash,
            "Expected '--' in effect signature"@,
        ) {
            Err(e) => Err(e),
            Ok(q) => match types_until(ts, q, TokenKind::RightParen, Seq::empty()) {
                Err(e) => Err(e),
                Ok((outputs, r)) => Ok((effect_of(inputs, outputs), r)),
            },
        },
    }
}

/// The identifiers that stand from `pos` up to the next `)` or the end,
/// added to `acc`.
pub open spec fn idents_until(ts: Seq<TokenModel>, pos: int, acc: Seq<Seq<char>>) -> Result<
    (Seq<Seq<char>>, int),
    ParseErrorModel,
>
    decreases ts.len() - pos,
{
    if check(ts, pos, TokenKind::RightParen) || at_end(ts, pos) {
        Ok((acc, pos))
    } else {
        match expect_ident(ts, pos, "Expected type parameter"@) {
            Err(e) => Err(e),
            Ok(name) => idents_until(ts, pos + 1, acc.push(name)),
        }
    }
}

/// What may stand in parentheses behind the name of a variant: its field
/// types. Without parentheses there are none.
pub open spec fn fields_at(ts: Seq<TokenModel>, pos: int) -> Result<
    (Seq<TypeModel>, int),
    ParseErrorModel,
> {
    if check(ts, pos, TokenKind::LeftParen) {
        match types_until(ts, pos + 1, TokenKind::RightParen, Seq::empty()) {
            Err(e) => Err(e),
            Ok((fields, p)) => match expect(ts, p, TokenKind::RightParen, "Expected ')'"@) {
                Err(e) => Err(e),
                Ok(q) => Ok((fields, q)),
            },
        }
    } else {
        Ok((Seq::empty(), pos))
    }
}

/// What may stand in parentheses behind the name of a type: its
/// parameters. Without parentheses there are none.
pub open spec fn params_at(ts: Seq<TokenModel>, pos: int) -> Result<
    (Seq<Seq<char>>, int),
    ParseErrorModel,
> {
    if check(ts, pos, TokenKind::LeftParen) {
        match idents_until(ts, pos + 1, Seq::empty()) {
            Err(e) => Err(e),
            Ok((params, p)) => match expect(ts, p, TokenKind::RightParen, "Expected ')'"@) {
                Err(e) => Err(e),
                Ok(q) => Ok((params, q)),
            },
        }
    } else {
        Ok((Seq::empty(), pos))
    }
}

/// The variants that start at `pos`, separated by `|`, added to `acc`.
pub open spec fn variants_from(ts: Seq<TokenModel>, pos: int, acc: Seq<VariantModel>) -> Result<
    (Seq<VariantModel>, int),
    ParseErrorModel,
>
    decreases ts.len() - pos,
{
    match expect_ident(ts, pos, "Expected variant name"@) {
        Err(e) => Err(e),
        Ok(name) => match fields_at(ts, pos + 1) {
            Err(e) => Err(e),
            Ok((fields, p)) => if check(ts, p, TokenKind::Pipe) {
                if p < pos {
                    Err(stuck(ts, pos))
                } else {
                    variants_from(ts, p + 1, acc.push(VariantModel { name, fields }))
                }
            } else {
                Ok((acc.push(VariantModel { name, fields }), p))
            },
        },
    }
}

/// The type definition that starts at `pos`: `type`, a name, parameters in
/// parentheses if there are any, `|`, and the variants.
pub open spec fn typedef_at(ts: Seq<TokenModel>, pos: int) -> Result<
    (TypeDefModel, int),
    ParseErrorModel,
> {
    match expect(ts, pos, TokenKind::Type, "Expected 'type'"@) {
        Err(e) => Err(e),
        Ok(after_type) => match expect_ident(ts, after_type, "Expected type name"@) {
            Err(e) => Err(e),
            Ok(name) => match params_at(ts, after_type + 1) {
                Err(e) => Err(e),
                Ok((type_params, after_params)) => match expect(
                    ts,
                    after_params,
                    TokenKind::Pipe,
                    "Expected '|' before first variant"@,
                ) {
                    Err(e) => Err(e),
                    Ok(after_bar) => match variants_from(ts, after_bar, Seq::empty()) {
                        Err(e) => Err(e),
                        Ok((variants, end)) => Ok(
                            (TypeDefModel { name, type_params, variants }, end),
                        ),
                    },
                },
            },
        },
    }
}

/// The error of an integer literal that does not fit in 64 bits.
pub open spec fn invalid_integer(ts: Seq<TokenModel>, pos: int) -> ParseErrorModel {
    error_at(ts, pos, "Invalid integer: "@ + lexeme_at(ts, pos))
}

/// The error of a token that no expression starts with.
pub open spec fn unexpected(ts: Seq<TokenModel>, pos: int) -> ParseErrorModel {
    error_at(ts, pos, "Unexpected token: "@ + kind_text(kind_at(ts, pos)))
}

/// The expression that starts at `pos`.
pub open spec fn expr_at(ts: Seq<TokenModel>, file: Seq<char>, pos: int) -> Result<
    (ExprModel, int),
    ParseErrorModel,
>
    decreases ts.len() - pos, 3nat,
{
    let loc = loc_at(ts, file, pos);
    match kind_at(ts, pos) {
        TokenKind::IntLiteral => match int_of(lexeme_at(ts, pos)) {
            Some(n) => Ok((ExprModel::IntLit(n, loc), pos + 1)),
            None => Err(invalid_integer(ts, pos)),
        },
        TokenKind::BoolLiteral => Ok(
            (ExprModel::BoolLit(lexeme_at(ts, pos) == "true"@, loc), pos + 1),
        ),
        TokenKind::StringLiteral => Ok((ExprModel::StringLit(lexeme_at(ts, pos), loc), pos + 1)),
        TokenKind::Ident => Ok((ExprModel::WordCall(lexeme_at(ts, pos), loc), pos + 1)),
        TokenKind::LeftBracket => match block_at(ts, file, pos, "Expected '['"@) {
            Err(e) => Err(e),
            Ok((q, p)) => Ok((q, p)),
        },
        TokenKind::Match => match branches_until(ts, file, pos + 1, Seq::empty()) {
            Err(e) => Err(e),
            Ok((branches, p)) => match expect(ts, p, TokenKind::End, "Expected 'end'"@) {
                Err(e) => Err(e),
                Ok(q) => Ok((ExprModel::Match { branches, loc }, q)),
            },
        },
        TokenKind::If => match block_at(ts, file, pos + 1, "Expected '[' for then branch"@) {
            Err(e) => Err(e),
            Ok((then_branch, p)) => if p <= pos || p > ts.len() {
                Err(stuck(ts, pos))
            } else {
                match block_at(ts, file, p, "Expected '[' for else branch"@) {
                    Err(e) => Err(e),
                    Ok((else_branch, q)) => Ok(
                        (
                            ExprModel::If {
                                then_branch: Box::new(then_branch),
                                else_branch: Box::new(else_branch),
                                loc,
                            },
                            q,
                        ),
                    ),
                }
            },
        },
        TokenKind::While => match block_at(ts, file, pos + 1, "Expected '[' for condition"@) {
            Err(e) => Err(e),
            Ok((condition, p)) => if p <= pos || p > ts.len() {
                Err(stuck(ts, pos))
            } else {
                match block_at(ts, file, p, "Expected '[' for body"@) {
                    Err(e) => Err(e),
                    Ok((body, q)) => Ok(
                        (
                            ExprModel::While {
                                condition: Box::new(condition),
                                body: Box::new(body),
                                loc,
                            },
                            q,
                        ),
                    ),
                }
            },
        },
        _ => Err(unexpected(ts, pos)),
    }
}

/// The quotation that starts at `pos`: `[`, expressions, `]`. Where no `[`
/// stands at `pos`, the error has the given message.
pub open spec fn block_at(
    ts: Seq<TokenModel>,
    file: Seq<char>,
    pos: int,
    message: Seq<char>,
) -> Result<
    (ExprModel, int),
    ParseErrorModel,
>
    decreases ts.len() - pos, 2nat,
{
    match expect(ts, pos, TokenKind::LeftBracket, message) {
        Err(e) => Err(e),
        Ok(p) => match exprs_until(ts, file, p, Seq::empty()) {
            Err(e) => Err(e),
            Ok((body, q)) => match expect(ts, q, TokenKind::RightBracket, "Expected ']'"@) {
                Err(e) => Err(e),
                Ok(r) => Ok((ExprModel::Quotation(body, loc_at(ts, file, pos)), r)),
            },
        },
    }
}

/// The expressions that stand from `pos` up to the next `]` or the end,
/// added to `acc`.
pub open spec fn exprs_until(
    ts: Seq<TokenModel>,
    file: Seq<char>,
    pos: int,
    acc: Seq<ExprModel>,
) -> Result<
    (Seq<ExprModel>, int),
    ParseErrorModel,
>
    decreases ts.len() - pos, 4nat,
{
    if check(ts, pos, TokenKind::RightBracket) || at_end(ts, pos) {
        Ok((acc, pos))
    } else {
        match expr_at(ts, file, pos) {
            Err(e) => Err(e),
            Ok((e, p)) => if p <= pos || p > ts.len() {
                Err(stuck(ts, pos))
            } else {
                exprs_until(ts, file, p, acc.push(e))
            },
        }
    }
}

/// The branches of a pattern match that stand from `pos` up to the next
/// `end` or the end of the tokens, added to `acc`. A branch is the name of
/// a variant, `=>`, and a body in brackets.
pub open spec fn branches_until(
    ts: Seq<TokenModel>,
    file: Seq<char>,
    pos: int,
    acc: Seq<BranchModel>,
) -> Result<(Seq<BranchModel>, int), ParseErrorModel>
    decreases ts.len() - pos, 5nat,
{
    if check(ts, pos, TokenKind::End) || at_end(ts, pos) {
        Ok((acc, pos))
    } else {
        match expect_ident(ts, pos, "Expected variant name"@) {
            Err(e) => Err(e),
            Ok(variant) => match expect(ts, pos + 1, TokenKind::Arrow, "Expected '=>'"@) {
                Err(e) => Err(e),
                Ok(after_arrow) => match expect(
                    ts,
                    after_arrow,
                    TokenKind::LeftBracket,
                    "Expected '[' for branch body"@,
                ) {
                    Err(e) => Err(e),
                    Ok(after_open) => match exprs_until(ts, file, after_open, Seq::empty()) {
                        Err(e) => Err(e),
                        Ok((body, after_body)) => match expect(
                            ts,
                            after_body,
                            TokenKind::RightBracket,
                            "Expected ']'"@,
                        ) {
                            Err(e) => Err(e),
                            Ok(end) => if end <= pos || end > ts.len() {
                                Err(stuck(ts, pos))
                            } else {
                                branches_until(
                                    ts,
                                    file,
                                    end,
                                    acc.push(BranchModel { variant, body }),
                                )
                            },
                        },
                    },
                },
            },
        }
    }
}

/// The expressions that stand from `pos` up to the next `;` or the end,
/// added to `acc`.
pub open spec fn body_until(
    ts: Seq<TokenModel>,
    file: Seq<char>,
    pos: int,
    acc: Seq<ExprModel>,
) -> Result<
    (Seq<ExprModel>, int),
    ParseErrorModel,
>
    decreases ts.len() - pos,
{
    if check_ident(ts, pos, ";"@) || at_end(ts, pos) {
        Ok((acc, pos))
    } else {
        match expr_at(ts, file, pos) {
            Err(e) => Err(e),
            Ok((e, p)) => if p <= pos || p > ts.len() {
                Err(stuck(ts, pos))
            } else {
                body_until(ts, file, p, acc.push(e))
            },
        }
    }
}

/// The word definition that starts at `pos`: `:`, a name, the effect in
/// parentheses, the body, and `;`.
pub open spec fn word_at(ts: Seq<TokenModel>, file: Seq<char>, pos: int) -> Result<
    (WordModel, int),
    ParseErrorModel,
> {
    match expect(ts, pos, TokenKind::Colon, "Expected ':'"@) {
        Err(e) => Err(e),
        Ok(after_colon) => match expect_ident(ts, after_colon, "Expected word name"@) {
            Err(e) => Err(e),
            Ok(name) => match expect(
                ts,
                after_colon + 1,
                TokenKind::LeftParen,
                "Expected '(' for effect signature"@,
            ) {
                Err(e) => Err(e),
                Ok(after_open) => match effect_at(ts, after_open) {
                    Err(e) => Err(e),
                    Ok((effect, after_effect)) => match expect(
                        ts,
                        after_effect,
                        TokenKind::RightParen,
                        "Expected ')' after effect signature"@,
                    ) {
                        Err(e) => Err(e),
                        Ok(after_close) => match body_until(ts, file, after_close, Seq::empty()) {
                            Err(e) => Err(e),
                            Ok((body, after_body)) => match expect_ident_value(
                                ts,
                                after_body,
                                ";"@,
                                "Expected ';' at end of word definition"@,
                            ) {
                                Err(e) => Err(e),
                                Ok(end) => Ok(
                                    (
                                        WordModel { name, effect, body, loc: loc_at(ts, file, pos) },
                                        end,
                                    ),
                                ),
                            },
                        },
                    },
                },
            },
        },
    }
}

/// The program that the tokens from `pos` on give, added to the
/// definitions in `p`: type definitions start with `type`, word definitions
/// with `:`.
pub open spec fn program_from(
    ts: Seq<TokenModel>,
    file: Seq<char>,
    pos: int,
    p: ProgramModel,
) -> Result<
    ProgramModel,
    ParseErrorModel,
>
    decreases ts.len() - pos,
{
    if at_end(ts, pos) {
        Ok(p)
    } else if check(ts, pos, TokenKind::Type) {
        match typedef_at(ts, pos) {
            Err(e) => Err(e),
            Ok((d, q)) => if q <= pos || q > ts.len() {
                Err(stuck(ts, pos))
            } else {
                program_from(
                    ts,
                    file,
                    q,
                    ProgramModel { type_defs: p.type_defs.push(d), word_defs: p.word_defs },
                )
            },
        }
    } else if check(ts, pos, TokenKind::Colon) {
        match word_at(ts, file, pos) {
            Err(e) => Err(e),
            Ok((w, q)) => if q <= pos || q > ts.len() {
                Err(stuck(ts, pos))
            } else {
                program_from(
                    ts,
                    file,
                    q,
                    ProgramModel { type_defs: p.type_defs, word_defs: p.word_defs.push(w) },
                )
            },
        }
    } else {
        Err(error_at(ts, pos, "Expected 'type' or ':'"@))
    }
}

/// The program without definitions.
pub open spec fn empty_program() -> ProgramModel {
    ProgramModel { type_defs: Seq::empty(), word_defs: Seq::empty() }
}

/// How a parse error is shown.
pub open spec fn parse_error_text(e: ParseErrorModel) -> Seq<char> {
    "Parse error at "@ + decimal(e.line as nat) + ":"@ + decimal(
        e.column as nat,
    ) + ": "@ + e.message
}

} // verus!
