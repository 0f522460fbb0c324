//! Laws of the grammar: every form that is read takes at least one token
//! and ends within the token list.

use vstd::prelude::*;
use crate::ast::{BranchModel, ExprModel, VariantModel};
use crate::ast::types::TypeModel;
use crate::parser::grammar::{
    at_end, block_at, body_until, branches_until, check, check_ident, effect_at, expect_ident,
    expr_at, exprs_until, fields_at, idents_until, is_type_variable, kind_at, params_at,
    type_at, typedef_at, types_until, variants_from, word_at,
};
use crate::parser::lexer::{TokenKind, TokenModel};

verus! {

/// A type takes at least one token and ends within the token list.
pub proof fn type_advances(ts: Seq<TokenModel>, pos: int)
    requires
        0 <= pos <= ts.len(),
        type_at(ts, pos) is Ok,
    ensures
        pos < type_at(ts, pos)->Ok_0.1 <= ts.len(),
    decreases ts.len() - pos, 0nat,
{
    let name = expect_ident(ts, pos, "Expected type name"@)->Ok_0;
    if name != "Int"@ && name != "Bool"@ && name != "String"@
        && !is_type_variable(name) && check(
        ts,
        pos + 1,
        TokenKind::LeftParen,
    ) {
        types_stay_within(ts, pos + 2, TokenKind::RightParen, Seq::empty());
    }
}

/// A list of types ends at or after the position where it starts, within
/// the token list.
pub proof fn types_stay_within(ts: Seq<TokenModel>, pos: int, stop: TokenKind, acc: Seq<TypeModel>)
    requires
        0 <= pos <= ts.len(),
        types_until(ts, pos, stop, acc) is Ok,
    ensures
        pos <= types_until(ts, pos, stop, acc)->Ok_0.1 <= ts.len(),
    decreases ts.len() - pos, 1nat,
{
    if !(check(ts, pos, stop) || at_end(ts, pos)) {
        type_advances(ts, pos);
        let (t, p) = type_at(ts, pos)->Ok_0;
        types_stay_within(ts, p, stop, acc.push(t));
    }
}

/// An effect ends after the position where it starts, within the token
/// list.
pub proof fn effect_advances(ts: Seq<TokenModel>, pos: int)
    requires
        0 <= pos <= ts.len(),
        effect_at(ts, pos) is Ok,
    ensures
        pos < effect_at(ts, pos)->Ok_0.1 <= ts.len(),
{
    types_stay_within(ts, pos, TokenKind::Dash, Seq::empty());
    let (inputs, p) = types_until(ts, pos, TokenKind::Dash, Seq::empty())->Ok_0;
    types_stay_within(ts, p + 1, TokenKind::RightParen, Seq::empty());
}

/// A list of identifiers ends at or after the position where it starts,
/// within the token list.
pub proof fn idents_stay_within(ts: Seq<TokenModel>, pos: int, acc: Seq<Seq<char>>)
    requires
        0 <= pos <= ts.len(),
        idents_until(ts, pos, acc) is Ok,
    ensures
        pos <= idents_until(ts, pos, acc)->Ok_0.1 <= ts.len(),
    decreases ts.len() - pos,
{
    if !(check(ts, pos, TokenKind::RightParen) || at_end(ts, pos)) {
        let name = expect_ident(ts, pos, "Expected type parameter"@)->Ok_0;
        idents_stay_within(ts, pos + 1, acc.push(name));
    }
}

/// The fields of a variant end at or after the position where they start,
/// within the token list.
pub proof fn fields_stay_within(ts: Seq<TokenModel>, pos: int)
    requires
        0 <= pos <= ts.len(),
        fields_at(ts, pos) is Ok,
    ensures
        pos <= fields_at(ts, pos)->Ok_0.1 <= ts.len(),
{
    if check(ts, pos, TokenKind::LeftParen) {
        types_stay_within(ts, pos + 1, TokenKind::RightParen, Seq::empty());
    }
}

/// The variants of a type take at least one token and end within the token
/// list.
pub proof fn variants_advance(ts: Seq<TokenModel>, pos: int, acc: Seq<VariantModel>)
    requires
        0 <= pos <= ts.len(),
        variants_from(ts, pos, acc) is Ok,
    ensures
        pos < variants_from(ts, pos, acc)->Ok_0.1 <= ts.len(),
    decreases ts.len() - pos,
{
    let name = expect_ident(ts, pos, "Expected variant name"@)->Ok_0;
    fields_stay_within(ts, pos + 1);
    let (fields, p) = fields_at(ts, pos + 1)->Ok_0;
    if check(ts, p, TokenKind::Pipe) {
        variants_advance(ts, p + 1, acc.push(VariantModel { name, fields }));
    }
}

/// A type definition takes at least one token and ends within the token
/// list.
pub proof fn typedef_advances(ts: Seq<TokenModel>, pos: int)
    requires
        0 <= pos <= ts.len(),
        typedef_at(ts, pos) is Ok,
    ensures
        pos < typedef_at(ts, pos)->Ok_0.1 <= ts.len(),
{
    let after_type = pos + 1;
    if check(ts, after_type + 1, TokenKind::LeftParen) {
        idents_stay_within(ts, after_type + 2, Seq::empty());
    }
    let (params, after_params) = params_at(ts, after_type + 1)->Ok_0;
    variants_advance(ts, after_params + 1, Seq::empty());
}

/// An expression takes at least one token and ends within the token list.
pub proof fn expr_advances(ts: Seq<TokenModel>, file: Seq<char>, pos: int)
    requires
        0 <= pos <= ts.len(),
        expr_at(ts, file, pos) is Ok,
    ensures
        pos < expr_at(ts, file, pos)->Ok_0.1 <= ts.len(),
    decreases ts.len() - pos, 3nat,
{
    match kind_at(ts, pos) {
        TokenKind::LeftBracket => {
            block_advances(ts, file, pos, "Expected '['"@);
        },
        TokenKind::Match => {
            branches_stay_within(ts, file, pos + 1, Seq::empty());
        },
        TokenKind::If => {
            block_advances(ts, file, pos + 1, "Expected '[' for then branch"@);
            let (then_branch, p) = block_at(ts, file, pos + 1, "Expected '[' for then branch"@)->Ok_0;
            block_advances(ts, file, p, "Expected '[' for else branch"@);
        },
        TokenKind::While => {
            block_advances(ts, file, pos + 1, "Expected '[' for condition"@);
            let (condition, p) = block_at(ts, file, pos + 1, "Expected '[' for condition"@)->Ok_0;
            block_advances(ts, file, p, "Expected '[' for body"@);
        },
        _ => {},
    }
}

/// A quotation takes at least one token and ends within the token list.
pub proof fn block_advances(ts: Seq<TokenModel>, file: Seq<char>, pos: int, message: Seq<char>)
    requires
        0 <= pos <= ts.len(),
        block_at(ts, file, pos, message) is Ok,
    ensures
        pos < block_at(ts, file, pos, message)->Ok_0.1 <= ts.len(),
    decreases ts.len() - pos, 2nat,
{
    exprs_stay_within(ts, file, pos + 1, Seq::empty());
}

/// A list of expressions ends at or after the position where it starts,
/// within the token list.
pub proof fn exprs_stay_within(ts: Seq<TokenModel>, file: Seq<char>, pos: int, acc: Seq<ExprModel>)
    requires
        0 <= pos <= ts.len(),
        exprs_until(ts, file, pos, acc) is Ok,
    ensures
        pos <= exprs_until(ts, file, pos, acc)->Ok_0.1 <= ts.len(),
    decreases ts.len() - pos, 4nat,
{
    if !(check(ts, pos, TokenKind::RightBracket) || at_end(ts, pos)) {
        expr_advances(ts, file, pos);
        let (e, p) = expr_at(ts, file, pos)->Ok_0;
        exprs_stay_within(ts, file, p, acc.push(e));
    }
}

/// The branches of a pattern match end at or after the position where they
/// start, within the token list.
pub proof fn branches_stay_within(
    ts: Seq<TokenModel>,
    file: Seq<char>,
    pos: int,
    acc: Seq<BranchModel>,
)
    requires
        0 <= pos <= ts.len(),
        branches_until(ts, file, pos, acc) is Ok,
    ensures
        pos <= branches_until(ts, file, pos, acc)->Ok_0.1 <= ts.len(),
    decreases ts.len() - pos, 5nat,
{
    if !(check(ts, pos, TokenKind::End) || at_end(ts, pos)) {
        let variant = expect_ident(ts, pos, "Expected variant name"@)->Ok_0;
        exprs_stay_within(ts, file, pos + 3, Seq::empty());
        let (body, after_body) = exprs_until(ts, file, pos + 3, Seq::empty())->Ok_0;
        branches_stay_within(
            ts,
            file,
            after_body + 1,
            acc.push(BranchModel { variant, body }),
        );
    }
}

/// The body of a word ends at or after the position where it starts,
/// within the token list.
pub proof fn body_stays_within(ts: Seq<TokenModel>, file: Seq<char>, pos: int, acc: Seq<ExprModel>)
    requires
        0 <= pos <= ts.len(),
        body_until(ts, file, pos, acc) is Ok,
    ensures
        pos <= body_until(ts, file, pos, acc)->Ok_0.1 <= ts.len(),
    decreases ts.len() - pos,
{
    if !(check_ident(ts, pos, ";"@) || at_end(ts, pos)) {
        expr_advances(ts, file, pos);
        let (e, p) = expr_at(ts, file, pos)->Ok_0;
        body_stays_within(ts, file, p, acc.push(e));
    }
}

/// A word definition takes at least one token and ends within the token
/// list.
pub proof fn word_advances(ts: Seq<TokenModel>, file: Seq<char>, pos: int)
    requires
        0 <= pos <= ts.len(),
        word_at(ts, file, pos) is Ok,
    ensures
        pos < word_at(ts, file, pos)->Ok_0.1 <= ts.len(),
{
    effect_advances(ts, pos + 3);
    let (effect, after_effect) = effect_at(ts, pos + 3)->Ok_0;
    body_stays_within(ts, file, after_effect + 1, Seq::empty());
}

} // verus!
