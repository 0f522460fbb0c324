//! The rules of the effect checker, as mathematics: the stack that each
//! expression leaves, or the error that it gives.

use vstd::prelude::*;
use crate::ast::{
    BranchModel, ExprModel, ProgramModel, TypeDefModel, VariantModel, WordModel, find_variant,
    match_branches,
};
use crate::ast::types::{
    EffectModel, StackModel, TypeModel, depth_of, empty_stack, popped, pushed, type_text,
};
use crate::text::decimal;
use crate::typechecker::environment::EnvModel;
use crate::typechecker::errors::TypeErrorModel;
use crate::typechecker::unification::{
    BindingModel, UnifyError, lookup_type, unify_error_text, unify_stack, unify_type,
};

verus! {

/// The effect that stands for any quotation: quotations are not looked
/// into.
pub open spec fn placeholder_effect() -> EffectModel {
    EffectModel { inputs: empty_stack(), outputs: empty_stack() }
}

/// A type with its variables replaced by what the bindings bind them to.
/// Quotation types are left as they are.
pub open spec fn subst_type(t: TypeModel, bindings: Seq<BindingModel>) -> TypeModel
    decreases t,
{
    match t {
        TypeModel::Var(name) => match lookup_type(bindings, name, 0) {
            Some(bound) => bound,
            None => t,
        },
        TypeModel::Named { name, args } => TypeModel::Named {
            name,
            args: subst_types(args, bindings),
        },
        _ => t,
    }
}

/// The types of a sequence, each with its variables replaced.
pub open spec fn subst_types(ts: Seq<TypeModel>, bindings: Seq<BindingModel>) -> Seq<TypeModel>
    decreases ts,
{
    Seq::new(
        ts.len(),
        |i: int|
            if 0 <= i < ts.len() {
                subst_type(ts[i], bindings)
            } else {
                TypeModel::Int
            },
    )
}

/// A stack with the variables of its elements replaced. Row variables are
/// left as they are.
pub open spec fn subst_stack(s: StackModel, bindings: Seq<BindingModel>) -> StackModel {
    StackModel { row: s.row, items: subst_types(s.items, bindings) }
}

/// The depth of a stack as the effect checker counts it: none counts as zero.
pub open spec fn counted_depth(s: StackModel) -> usize {
    match depth_of(s) {
        Some(d) => d,
        None => 0,
    }
}

/// The error of a word whose inputs do not unify with what the stack holds.
pub open spec fn cannot_apply(
    word: Seq<char>,
    e: UnifyError,
) -> TypeErrorModel {
    TypeErrorModel::Other {
        message: "Cannot apply '"@ + word + "': input type mismatch: "@ + unify_error_text(e),
    }
}

/// Applying the effect of the word `word` to a stack.
///
/// The stack must be at least as deep as the inputs of the effect. As many
/// elements as the effect has inputs are taken off the stack and unified
/// with the inputs. The outputs, with the variables replaced by what that
/// unification bound them to, are put onto what is left of the stack.
pub open spec fn apply_effect(effect: EffectModel, stack: StackModel, word: Seq<char>) -> Result<
    StackModel,
    TypeErrorModel,
> {
    let required = counted_depth(effect.inputs);
    let available = counted_depth(stack);
    if available < required {
        Err(TypeErrorModel::StackUnderflow { word, required, available })
    } else {
        let keep = stack.items.len() - required;
        let consumed = StackModel {
            row: None,
            items: stack.items.subrange(keep, stack.items.len() as int),
        };
        match unify_stack(consumed, effect.inputs) {
            Err(e) => Err(cannot_apply(word, e)),
            Ok(b) => Ok(
                StackModel {
                    row: stack.row,
                    items: stack.items.subrange(0, keep) + subst_types(
                        effect.outputs.items,
                        b.types,
                    ),
                },
            ),
        }
    }
}

/// The error of a construct that needs one element on an empty stack.
pub open spec fn underflow(word: Seq<char>) -> TypeErrorModel {
    TypeErrorModel::StackUnderflow { word, required: 1, available: 0 }
}

/// What taking the condition off the stack gives: the stack below it, or
/// the error of a missing condition or of one that is no boolean.
pub open spec fn take_condition(stack: StackModel, word: Seq<char>, context: Seq<char>) -> Result<
    StackModel,
    TypeErrorModel,
> {
    if stack.items.len() == 0 {
        Err(underflow(word))
    } else if unify_type(stack.items.last(), TypeModel::Bool) is Err {
        Err(
            TypeErrorModel::TypeMismatch {
                expected: TypeModel::Bool,
                actual: stack.items.last(),
                context,
            },
        )
    } else {
        Ok(popped(stack))
    }
}

/// The stack `result` where it unifies with `other`, the error of the given
/// message where it does not.
pub open spec fn agreeing(
    result: StackModel,
    a: StackModel,
    b: StackModel,
    message: Seq<char>,
) -> Result<
    StackModel,
    TypeErrorModel,
> {
    if unify_stack(a, b) is Err {
        Err(TypeErrorModel::Other { message })
    } else {
        Ok(result)
    }
}

/// Whether one of the branches from position `i` on names the given
/// variant.
pub open spec fn named_by(branches: Seq<BranchModel>, name: Seq<char>, i: int) -> bool
    decreases branches.len() - i,
{
    if i < 0 || i >= branches.len() {
        false
    } else if branches[i].variant == name {
        true
    } else {
        named_by(branches, name, i + 1)
    }
}

/// The names of the variants from position `i` on that no branch names,
/// added to `missing` in the order of declaration.
pub open spec fn uncovered(
    variants: Seq<VariantModel>,
    branches: Seq<BranchModel>,
    missing: Seq<Seq<char>>,
    i: int,
) -> Seq<Seq<char>>
    decreases variants.len() - i,
{
    if i < 0 || i >= variants.len() {
        missing
    } else if named_by(branches, variants[i].name, 0) {
        uncovered(variants, branches, missing, i + 1)
    } else {
        uncovered(variants, branches, missing.push(variants[i].name), i + 1)
    }
}

/// What a pattern match is on: the name and the variants of the type of
/// the value on top of the stack. The stack must have an element, the
/// element must be of a named type that is declared, and every variant of
/// the type must be named by a branch: the variants that no branch names
/// are the missing ones.
pub open spec fn match_subject(
    env: EnvModel,
    branches: Seq<BranchModel>,
    stack: StackModel,
) -> Result<
    (Seq<char>, Seq<VariantModel>),
    TypeErrorModel,
> {
    if stack.items.len() == 0 {
        Err(underflow("match"@))
    } else {
        match stack.items.last() {
            TypeModel::Named { name, args } => if !env.types.contains_key(name) {
                Err(TypeErrorModel::UndefinedType { name })
            } else if uncovered(env.types[name], branches, Seq::empty(), 0).len() > 0 {
                Err(
                    TypeErrorModel::NonExhaustiveMatch {
                        adt_name: name,
                        missing_variants: uncovered(env.types[name], branches, Seq::empty(), 0),
                    },
                )
            } else {
                Ok((name, env.types[name]))
            },
            other => Err(
                TypeErrorModel::Other {
                    message: "Cannot pattern match on non-ADT type: "@ + type_text(other),
                },
            ),
        }
    }
}

/// The stack that the first result leaves, where the results from position
/// `i` on all unify with it.
pub open spec fn consistent(
    name: Seq<char>,
    base: StackModel,
    results: Seq<StackModel>,
    i: int,
) -> Result<StackModel, TypeErrorModel>
    decreases results.len() - i,
{
    if results.len() == 0 {
        Ok(base)
    } else if i < 1 || i >= results.len() {
        Ok(results[0])
    } else if unify_stack(results[0], results[i]) is Err {
        Err(
            TypeErrorModel::InconsistentBranchEffects {
                adt_name: name,
                expected: EffectModel { inputs: base, outputs: results[0] },
                actual: EffectModel { inputs: base, outputs: results[i] },
                branch: "branch "@ + decimal(i as nat),
            },
        )
    } else {
        consistent(name, base, results, i + 1)
    }
}

/// The stack that an expression leaves when it starts from `stack`, or the
/// error that it gives.
///
/// A literal pushes its type. A word call applies the effect of the word.
/// A quotation pushes a quotation type with the placeholder effect. A
/// conditional takes a boolean off the stack and checks both branches from
/// what is left; their results must unify, and the first is the result. A
/// loop checks its condition, which must leave a boolean on top of a stack
/// that unifies with the one it started from, and its body, whose result
/// must unify with the stack it started from; the loop leaves the stack as
/// it was.
pub open spec fn check_expr(env: EnvModel, e: ExprModel, stack: StackModel) -> Result<
    StackModel,
    TypeErrorModel,
>
    decreases e, 1nat,
{
    match e {
        ExprModel::IntLit(n, loc) => Ok(pushed(stack, TypeModel::Int)),
        ExprModel::BoolLit(b, loc) => Ok(pushed(stack, TypeModel::Bool)),
        ExprModel::StringLit(s, loc) => Ok(pushed(stack, TypeModel::String)),
        ExprModel::WordCall(name, loc) => if env.words.contains_key(name) {
            apply_effect(env.words[name], stack, name)
        } else {
            Err(TypeErrorModel::UndefinedWord { name })
        },
        ExprModel::Quotation(body, loc) => Ok(
            pushed(stack, TypeModel::Quotation(placeholder_effect())),
        ),
        ExprModel::Match { branches, loc } => check_match(env, e, stack),
        ExprModel::If { then_branch, else_branch, loc } => match take_condition(
            stack,
            "if"@,
            "if condition"@,
        ) {
            Err(err) => Err(err),
            Ok(rest) => match check_branch(env, *then_branch, rest) {
                Err(err) => Err(err),
                Ok(t) => match check_branch(env, *else_branch, rest) {
                    Err(err) => Err(err),
                    Ok(f) => agreeing(t, t, f, "if branches produce incompatible stack effects"@),
                },
            },
        },
        ExprModel::While { condition, body, loc } => match check_branch(env, *condition, stack) {
            Err(err) => Err(err),
            Ok(c) => match take_condition(c, "while"@, "while condition"@) {
                Err(err) => Err(err),
                Ok(rest) => match agreeing(
                    stack,
                    rest,
                    stack,
                    "while condition must leave the stack unchanged below its Bool"@,
                ) {
                    Err(err) => Err(err),
                    Ok(_) => match check_branch(env, *body, stack) {
                        Err(err) => Err(err),
                        Ok(b) => agreeing(stack, stack, b, "while body must maintain stack shape"@),
                    },
                },
            },
        },
    }
}

/// The stack that a branch of a conditional or a part of a loop leaves: the
/// body of a quotation is checked in place, any other expression as it
/// stands.
pub open spec fn check_branch(env: EnvModel, branch: ExprModel, stack: StackModel) -> Result<
    StackModel,
    TypeErrorModel,
>
    decreases branch, 2nat,
{
    match branch {
        ExprModel::Quotation(body, loc) => check_from(env, body, stack, 0),
        _ => check_expr(env, branch, stack),
    }
}

/// The stack that the expressions of a body from position `i` on leave,
/// each starting from the stack that the one before left.
pub open spec fn check_from(
    env: EnvModel,
    body: Seq<ExprModel>,
    stack: StackModel,
    i: int,
) -> Result<
    StackModel,
    TypeErrorModel,
>
    decreases body, body.len() - i,
{
    if i < 0 || i >= body.len() {
        Ok(stack)
    } else {
        match check_expr(env, body[i], stack) {
            Err(err) => Err(err),
            Ok(next) => check_from(env, body, next, i + 1),
        }
    }
}

/// The stack that a pattern match leaves: every branch starts from the
/// stack below the matched value with the fields of its variant on top, and
/// the results of all branches must unify with the result of the first,
/// which is the result of the match. A match without branches, on a value
/// of a type without variants, leaves the stack below the matched value.
pub open spec fn check_match(env: EnvModel, e: ExprModel, stack: StackModel) -> Result<
    StackModel,
    TypeErrorModel,
>
    decreases e, 0nat,
{
    match match_subject(env, match_branches(e), stack) {
        Err(err) => Err(err),
        Ok((name, variants)) => if match_branches(e).len() == 0 {
            Ok(popped(stack))
        } else {
            match check_branches(
                env,
                variants,
                match_branches(e),
                popped(stack),
                Seq::empty(),
                0,
            ) {
                Err(err) => Err(err),
                Ok(results) => consistent(name, popped(stack), results, 1),
            }
        },
    }
}

/// The stacks that the branches from position `i` on leave, added to
/// `results`. A branch must name a variant of the type.
pub open spec fn check_branches(
    env: EnvModel,
    variants: Seq<VariantModel>,
    branches: Seq<BranchModel>,
    base: StackModel,
    results: Seq<StackModel>,
    i: int,
) -> Result<Seq<StackModel>, TypeErrorModel>
    decreases branches, branches.len() - i,
{
    if i < 0 || i >= branches.len() {
        Ok(results)
    } else {
        match find_variant(variants, branches[i].variant, 0) {
            None => Err(TypeErrorModel::Other { message: "Unknown variant in pattern"@ }),
            Some(v) => if v < 0 || v >= variants.len() {
                Ok(results)
            } else {
                match check_from(
                    env,
                    branches[i].body,
                    StackModel { row: base.row, items: base.items + variants[v].fields },
                    0,
                ) {
                    Err(err) => Err(err),
                    Ok(s) => check_branches(env, variants, branches, base, results.push(s), i + 1),
                }
            },
        }
    }
}

/// Checking a word: its body, started from the inputs that it declares,
/// must leave a stack that unifies with the outputs that it declares. The
/// word is then known in the environment.
pub open spec fn check_word(env: EnvModel, w: WordModel) -> Result<EnvModel, TypeErrorModel> {
    match check_from(env, w.body, w.effect.inputs, 0) {
        Err(err) => Err(err),
        Ok(s) => if unify_stack(s, w.effect.outputs) is Err {
            Err(
                TypeErrorModel::EffectMismatch {
                    expected: w.effect,
                    actual: EffectModel { inputs: w.effect.inputs, outputs: s },
                    word: w.name,
                },
            )
        } else {
            Ok(EnvModel { words: env.words.insert(w.name, w.effect), ..env })
        },
    }
}

/// Checking the words from position `i` on, in order: each is checked in
/// the environment that the words before it left.
pub open spec fn check_words(env: EnvModel, words: Seq<WordModel>, i: int) -> Result<
    EnvModel,
    TypeErrorModel,
>
    decreases words.len() - i,
{
    if i < 0 || i >= words.len() {
        Ok(env)
    } else {
        match check_word(env, words[i]) {
            Err(err) => Err(err),
            Ok(next) => check_words(next, words, i + 1),
        }
    }
}

/// The environment with the type definitions from position `i` on made
/// known.
pub open spec fn add_types(env: EnvModel, defs: Seq<TypeDefModel>, i: int) -> EnvModel
    decreases defs.len() - i,
{
    if i < 0 || i >= defs.len() {
        env
    } else {
        add_types(
            EnvModel { types: env.types.insert(defs[i].name, defs[i].variants), ..env },
            defs,
            i + 1,
        )
    }
}

/// Checking a program: all its types are made known, then its words are
/// checked in the order of declaration.
pub open spec fn check_program(env: EnvModel, p: ProgramModel) -> Result<EnvModel, TypeErrorModel> {
    check_words(add_types(env, p.type_defs, 0), p.word_defs, 0)
}

/// The environment that checking a program leaves, with success or
/// without: all types of the program are known, and so is every word that
/// was checked with success before the first word that was not.
pub open spec fn env_after(env: EnvModel, p: ProgramModel) -> EnvModel {
    env_at(add_types(env, p.type_defs, 0), p.word_defs, 0, p.word_defs.len() as int)
}

/// Effect soundness: where a word is checked with success, the body of the
/// word, started from the inputs that the word declares, leaves a stack
/// that unifies with the outputs that the word declares.
pub proof fn effect_soundness(env: EnvModel, w: WordModel)
    requires
        check_word(env, w) is Ok,
    ensures
        check_from(env, w.body, w.effect.inputs, 0) is Ok,
        unify_stack(check_from(env, w.body, w.effect.inputs, 0)->Ok_0, w.effect.outputs) is Ok,
{
}

/// The environment in which the word at position `k` is checked, when the
/// words are checked in order from position `i` on, starting in `env`.
pub open spec fn env_at(env: EnvModel, words: Seq<WordModel>, i: int, k: int) -> EnvModel
    decreases k - i,
{
    if i >= k || i < 0 || i >= words.len() {
        env
    } else {
        match check_word(env, words[i]) {
            Err(err) => env,
            Ok(next) => env_at(next, words, i + 1, k),
        }
    }
}

/// Effect soundness of programs: where a program is checked with success,
/// every word of it is checked with success in the environment that the
/// words before it left, so the stack that its body leaves unifies with the
/// outputs that it declares.
pub proof fn program_soundness(env: EnvModel, words: Seq<WordModel>, i: int, k: int)
    requires
        0 <= i <= k < words.len(),
        check_words(env, words, i) is Ok,
    ensures
        check_word(env_at(env, words, i, k), words[k]) is Ok,
        check_from(env_at(env, words, i, k), words[k].body, words[k].effect.inputs, 0) is Ok,
        unify_stack(
            check_from(env_at(env, words, i, k), words[k].body, words[k].effect.inputs, 0)->Ok_0,
            words[k].effect.outputs,
        ) is Ok,
    decreases k - i,
{
    if i < k {
        program_soundness(check_word(env, words[i])->Ok_0, words, i + 1, k);
    }
}

} // verus!
