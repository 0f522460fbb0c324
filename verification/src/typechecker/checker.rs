//! The effect checker.
//!
//! The effect checker walks the body of each word and threads a stack type
//! through its expressions. What it computes is stated in
//! [`crate::typechecker::rules`], and every function here is proved to
//! compute exactly that.

use vstd::prelude::*;
use crate::ast::{
    Expr, MatchBranch, Program, Variant, VariantModel, WordDef, branches_model, copy_typedef,
    exprs_model, find_variant_index, match_branches, pattern_text, strings_model,
    variants_model,
};
use crate::ast::types::{
    Effect, StackModel, StackType, Type, copy_effect, copy_stack, copy_type, popped, type_model,
    type_to_text, types_model,
};
use crate::text::{push_decimal, same_text};
use crate::typechecker::environment::{EnvModel, Environment, builtin_env};
use crate::typechecker::errors::{TypeError, TypeErrorModel, TypeResult};
use crate::typechecker::rules::{
    add_types, apply_effect, check_branch, check_branches, check_expr, check_from, check_match,
    check_program, check_word, check_words, consistent, env_after, env_at, match_subject,
    named_by, subst_stack, subst_type, subst_types, take_condition, uncovered, underflow,
};
use crate::typechecker::unification::{Substitution, unify_stack, unify_stack_types, unify_types};

verus! {

/// The effect checker. One checker checks one program.
pub struct TypeChecker {
    env: Environment,
}

impl View for TypeChecker {
    type V = EnvModel;

    closed spec fn view(&self) -> EnvModel {
        self.env@
    }
}

/// The models of the stack types of a sequence, in order.
pub open spec fn stacks_model(ss: Seq<StackType>) -> Seq<StackModel> {
    Seq::new(ss.len(), |i: int| ss[i]@)
}

/// The outcome of a checking step as the rules state it.
pub open spec fn stack_as(r: TypeResult<StackType>) -> Result<StackModel, TypeErrorModel> {
    match r {
        Ok(s) => Ok(s@),
        Err(e) => Err(e@),
    }
}

/// The outcome of a step that changes the environment, as the rules state
/// it.
pub open spec fn env_as(r: TypeResult<()>, env: EnvModel) -> Result<EnvModel, TypeErrorModel> {
    match r {
        Ok(_) => Ok(env),
        Err(e) => Err(e@),
    }
}

/// The error of a construct that needs one element on an empty stack.
fn underflow_error(word: &str) -> (e: TypeError)
    ensures
        e@ == underflow(word@),
{
    TypeError::StackUnderflow { word: String::from_str(word), required: 1, available: 0 }
}

/// The error with the given message.
fn other_error(message: &str) -> (e: TypeError)
    ensures
        e@ == (TypeErrorModel::Other { message: message@ }),
{
    TypeError::Other { message: String::from_str(message) }
}

/// Whether two stack types unify.
fn unifies(a: &StackType, b: &StackType) -> (r: bool)
    ensures
        r == unify_stack(a@, b@) is Ok,
{
    unify_stack_types(a, b).is_ok()
}

/// Takes `n` elements off the top of a stack: hands back what is left and
/// the elements taken, as a stack of their own.
fn split_top(stack: StackType, n: usize) -> (r: (StackType, StackType))
    requires
        n <= stack@.items.len(),
    ensures
        r.0@ == (StackModel {
            row: stack@.row,
            items: stack@.items.subrange(0, stack@.items.len() - n),
        }),
        r.1@ == (StackModel {
            row: None,
            items: stack@.items.subrange(stack@.items.len() - n, stack@.items.len() as int),
        }),
{
    let ghost items = stack@.items;
    let ghost len = items.len() as int;
    let ghost row = stack@.row;
    let mut remaining = stack;
    let mut taken: Vec<Type> = Vec::new();
    let mut k: usize = 0;
    assert(items.subrange(0, len) =~= items);
    while k < n
        invariant
            k <= n <= len,
            len == items.len(),
            remaining@.row == row,
            remaining@.items == items.subrange(0, len - k),
            taken.len() == k,
            forall|j: int| 0 <= j < k ==> (#[trigger] taken@[j])@ == items[len - 1 - j],
        decreases n - k,
    {
        let ghost whole = remaining@.items;
        remaining = match remaining {
            StackType::Cons { rest, top } => {
                assert(whole == rest@.items.push(top@));
                assert(whole.drop_last() =~= rest@.items);
                assert(whole.drop_last() =~= items.subrange(0, len - k - 1));
                assert(whole.last() == top@);
                assert(whole.last() == items[len - 1 - k]);
                taken.push(top);
                *rest
            },
            other => other,
        };
        k += 1;
    }
    let mut consumed = StackType::Empty;
    assert(items.subrange(len - n, len - n) =~= Seq::empty());
    while taken.len() > 0
        invariant
            taken.len() <= n <= len,
            len == items.len(),
            consumed@.row.is_none(),
            consumed@.items == items.subrange(len - n, len - taken.len()),
            forall|j: int| 0 <= j < taken.len() ==> (#[trigger] taken@[j])@ == items[len - 1 - j],
        decreases taken.len(),
    {
        let ghost m = taken.len() as int;
        match taken.pop() {
            Some(t) => {
                consumed = consumed.push(t);
                assert(consumed@.items =~= items.subrange(len - n, len - m + 1));
            },
            None => {},
        }
    }
    (remaining, consumed)
}

/// The stack `base` with the elements of `top` put onto it.
fn append_items(base: StackType, top: &StackType) -> (r: StackType)
    ensures
        r@ == (StackModel { row: base@.row, items: base@.items + top@.items }),
    decreases *top,
{
    match top {
        StackType::Cons { rest, top: t } => {
            let below = append_items(base, rest);
            let r = below.push(copy_type(t));
            assert(r@.items =~= base@.items + top@.items);
            r
        },
        _ => {
            assert(base@.items + top@.items =~= base@.items);
            base
        },
    }
}

/// The stack `base` with the given types put onto it, in order.
fn push_all(base: StackType, types: &Vec<Type>) -> (r: StackType)
    ensures
        r@ == (StackModel { row: base@.row, items: base@.items + types_model(types@) }),
{
    let ghost start = base@;
    let mut out = base;
    let mut i: usize = 0;
    assert(start.items + types_model(types@).subrange(0, 0) =~= start.items);
    while i < types.len()
        invariant
            i <= types.len(),
            out@.row == start.row,
            out@.items == start.items + types_model(types@).subrange(0, i as int),
        decreases types.len() - i,
    {
        out = out.push(copy_type(&types[i]));
        assert(out@.items =~= start.items + types_model(types@).subrange(0, i + 1));
        i += 1;
    }
    assert(types_model(types@).subrange(0, i as int) =~= types_model(types@));
    out
}

/// Takes the condition off the stack: hands back the stack below it.
fn take_cond(stack: StackType, word: &str, context: &str) -> (r: TypeResult<StackType>)
    ensures
        stack_as(r) == take_condition(stack@, word@, context@),
{
    match stack.pop() {
        None => Err(underflow_error(word)),
        Some((rest, cond)) => {
            if unify_types(&cond, &Type::Bool).is_err() {
                Err(
                    TypeError::TypeMismatch {
                        expected: Type::Bool,
                        actual: cond,
                        context: String::from_str(context),
                    },
                )
            } else {
                Ok(rest)
            }
        },
    }
}

/// Whether one of the branches names the given variant.
fn is_named(branches: &Vec<MatchBranch>, name: &str) -> (r: bool)
    ensures
        r == named_by(branches_model(branches@), name@, 0),
{
    let mut i: usize = 0;
    while i < branches.len()
        invariant
            i <= branches.len(),
            named_by(branches_model(branches@), name@, 0) == named_by(
                branches_model(branches@),
                name@,
                i as int,
            ),
        decreases branches.len() - i,
    {
        if same_text(pattern_text(&branches[i].pattern), name) {
            return true;
        }
        i += 1;
    }
    false
}

/// The names of the variants that no branch names, in the order of
/// declaration.
fn find_uncovered(variants: &Vec<Variant>, branches: &Vec<MatchBranch>) -> (r: Vec<String>)
    ensures
        strings_model(r@) == uncovered(
            variants_model(variants@),
            branches_model(branches@),
            Seq::empty(),
            0,
        ),
{
    let mut missing: Vec<String> = Vec::new();
    let mut i: usize = 0;
    assert(strings_model(missing@) =~= Seq::<Seq<char>>::empty());
    while i < variants.len()
        invariant
            i <= variants.len(),
            uncovered(variants_model(variants@), branches_model(branches@), Seq::empty(), 0)
                == uncovered(
                variants_model(variants@),
                branches_model(branches@),
                strings_model(missing@),
                i as int,
            ),
        decreases variants.len() - i,
    {
        if !is_named(branches, variants[i].name.as_str()) {
            let ghost before = strings_model(missing@);
            missing.push(variants[i].name.clone());
            assert(strings_model(missing@) =~= before.push(variants@[i as int].name@));
        }
        i += 1;
    }
    missing
}

impl TypeChecker {
    /// A new effect checker, which knows the built-in words and no types.
    pub fn new() -> (r: TypeChecker)
        ensures
            r@ == builtin_env(),
    {
        TypeChecker { env: Environment::new() }
    }

    /// Checks a program: makes all its types known, then checks its words
    /// in the order of declaration. Each word is known to the words after
    /// it once it is checked.
    pub fn check_program(&mut self, program: &Program) -> (r: TypeResult<()>)
        ensures
            env_as(r, final(self)@) == check_program(old(self)@, program@),
            final(self)@ == env_after(old(self)@, program@),
    {
        let mut i: usize = 0;
        while i < program.type_defs.len()
            invariant
                i <= program.type_defs.len(),
                add_types(old(self)@, program@.type_defs, 0) == add_types(
                    self@,
                    program@.type_defs,
                    i as int,
                ),
            decreases program.type_defs.len() - i,
        {
            self.env.add_type(copy_typedef(&program.type_defs[i]));
            i += 1;
        }
        let mut k: usize = 0;
        while k < program.word_defs.len()
            invariant
                k <= program.word_defs.len(),
                check_program(old(self)@, program@) == check_words(
                    self@,
                    program@.word_defs,
                    k as int,
                ),
                env_after(old(self)@, program@) == env_at(
                    self@,
                    program@.word_defs,
                    k as int,
                    program@.word_defs.len() as int,
                ),
            decreases program.word_defs.len() - k,
        {
            match self.check_word_def(&program.word_defs[k]) {
                Ok(_) => {},
                Err(e) => {
                    return Err(e);
                },
            }
            k += 1;
        }
        Ok(())
    }

    /// Checks a word and makes it known.
    pub fn check_word_def(&mut self, word: &WordDef) -> (r: TypeResult<()>)
        ensures
            env_as(r, final(self)@) == check_word(old(self)@, word@),
            r is Err ==> final(self)@ == old(self)@,
    {
        let s = match self.check_body(&word.body, copy_stack(&word.effect.inputs)) {
            Ok(s) => s,
            Err(e) => {
                return Err(e);
            },
        };
        if !unifies(&s, &word.effect.outputs) {
            return Err(
                TypeError::EffectMismatch {
                    expected: copy_effect(&word.effect),
                    actual: Effect::new(copy_stack(&word.effect.inputs), s),
                    word: word.name.clone(),
                },
            );
        }
        self.env.add_word(word.name.clone(), copy_effect(&word.effect));
        Ok(())
    }

    /// The stack that an expression leaves when it starts from `stack`.
    pub fn check_expr(&self, expr: &Expr, stack: StackType) -> (r: TypeResult<StackType>)
        ensures
            stack_as(r) == check_expr(self@, expr@, stack@),
        decreases *expr, 1nat,
    {
        match expr {
            Expr::IntLit(_, _) => Ok(stack.push(Type::Int)),
            Expr::BoolLit(_, _) => Ok(stack.push(Type::Bool)),
            Expr::StringLit(_, _) => Ok(stack.push(Type::String)),
            Expr::WordCall(name, _) => {
                match self.env.lookup_word(name.as_str()) {
                    Some(effect) => self.apply_effect(effect, stack, name.as_str()),
                    None => Err(TypeError::UndefinedWord { name: name.clone() }),
                }
            },
            Expr::Quotation(_, _) => {
                let effect = Effect::new(StackType::empty(), StackType::empty());
                Ok(stack.push(Type::Quotation(Box::new(effect))))
            },
            Expr::Match { .. } => self.check_match(expr, stack),
            Expr::If { then_branch, else_branch, loc: _ } => {
                let rest = match take_cond(stack, "if", "if condition") {
                    Ok(s) => s,
                    Err(e) => {
                        return Err(e);
                    },
                };
                let t = match self.check_branch(then_branch, copy_stack(&rest)) {
                    Ok(s) => s,
                    Err(e) => {
                        return Err(e);
                    },
                };
                let f = match self.check_branch(else_branch, rest) {
                    Ok(s) => s,
                    Err(e) => {
                        return Err(e);
                    },
                };
                if unifies(&t, &f) {
                    Ok(t)
                } else {
                    Err(other_error("if branches produce incompatible stack effects"))
                }
            },
            Expr::While { condition, body, loc: _ } => {
                let c = match self.check_branch(condition, copy_stack(&stack)) {
                    Ok(s) => s,
                    Err(e) => {
                        return Err(e);
                    },
                };
                let rest = match take_cond(c, "while", "while condition") {
                    Ok(s) => s,
                    Err(e) => {
                        return Err(e);
                    },
                };
                if !unifies(&rest, &stack) {
                    return Err(
                        other_error(
                            "while condition must leave the stack unchanged below its Bool",
                        ),
                    );
                }
                let b = match self.check_branch(body, copy_stack(&stack)) {
                    Ok(s) => s,
                    Err(e) => {
                        return Err(e);
                    },
                };
                if unifies(&stack, &b) {
                    Ok(stack)
                } else {
                    Err(other_error("while body must maintain stack shape"))
                }
            },
        }
    }

    /// The stack that a branch of a conditional or a part of a loop leaves.
    fn check_branch(&self, branch: &Expr, stack: StackType) -> (r: TypeResult<StackType>)
        ensures
            stack_as(r) == check_branch(self@, branch@, stack@),
        decreases *branch, 2nat,
    {
        match branch {
            Expr::Quotation(body, _) => self.check_body(body, stack),
            _ => self.check_expr(branch, stack),
        }
    }

    /// The stack that the expressions of a body leave, each starting from
    /// the stack that the one before left.
    fn check_body(&self, body: &Vec<Expr>, stack: StackType) -> (r: TypeResult<StackType>)
        ensures
            stack_as(r) == check_from(self@, exprs_model(body@), stack@, 0),
        decreases *body, 0nat,
    {
        let ghost start = stack@;
        let mut current = stack;
        let mut i: usize = 0;
        while i < body.len()
            invariant
                i <= body.len(),
                start == stack@,
                check_from(self@, exprs_model(body@), start, 0) == check_from(
                    self@,
                    exprs_model(body@),
                    current@,
                    i as int,
                ),
            decreases body.len() - i,
        {
            let ghost before = current@;
            let step = self.check_expr(&body[i], current);
            assert(stack_as(step) == check_expr(self@, exprs_model(body@)[i as int], before));
            current = match step {
                Ok(s) => s,
                Err(e) => {
                    return Err(e);
                },
            };
            i += 1;
        }
        Ok(current)
    }

    /// Applies the effect of a word to a stack.
    fn apply_effect(&self, effect: &Effect, stack: StackType, word_name: &str) -> (r: TypeResult<
        StackType,
    >)
        ensures
            stack_as(r) == apply_effect(effect@, stack@, word_name@),
    {
        let required = match effect.inputs.depth() {
            Some(d) => d,
            None => 0,
        };
        let available = match stack.depth() {
            Some(d) => d,
            None => 0,
        };
        if available < required {
            return Err(
                TypeError::StackUnderflow {
                    word: String::from_str(word_name),
                    required,
                    available,
                },
            );
        }
        let (remaining, consumed) = split_top(stack, required);
        match unify_stack_types(&consumed, &effect.inputs) {
            Err(e) => {
                let mut message = String::from_str("Cannot apply '");
                message.append(word_name);
                message.append("': input type mismatch: ");
                let reason = e.to_string();
                message.append(reason.as_str());
                Err(TypeError::Other { message })
            },
            Ok((types, _rows)) => {
                let outputs = self.apply_type_substitution(&effect.outputs, &types);
                Ok(append_items(remaining, &outputs))
            },
        }
    }

    /// A stack type with the variables of its elements replaced by what the
    /// substitution binds them to.
    fn apply_type_substitution(&self, stack: &StackType, subst: &Substitution) -> (r: StackType)
        ensures
            r@ == subst_stack(stack@, subst@),
        decreases *stack,
    {
        match stack {
            StackType::Empty => {
                assert(subst_types(Seq::empty(), subst@) =~= Seq::empty());
                StackType::Empty
            },
            StackType::Cons { rest, top } => {
                let new_rest = self.apply_type_substitution(rest, subst);
                let new_top = self.apply_type_subst_to_type(top, subst);
                let r = new_rest.push(new_top);
                assert(r@.items =~= subst_types(stack@.items, subst@));
                r
            },
            StackType::RowVar(name) => {
                assert(subst_types(Seq::empty(), subst@) =~= Seq::empty());
                StackType::RowVar(name.clone())
            },
        }
    }

    /// A type with its variables replaced by what the substitution binds
    /// them to.
    fn apply_type_subst_to_type(&self, ty: &Type, subst: &Substitution) -> (r: Type)
        ensures
            r@ == subst_type(ty@, subst@),
        decreases *ty,
    {
        match ty {
            Type::Var(name) => match subst.get(name.as_str()) {
                Some(bound) => copy_type(bound),
                None => copy_type(ty),
            },
            Type::Named { name, args } => Type::Named {
                name: name.clone(),
                args: self.apply_type_subst_to_types(args, subst),
            },
            _ => copy_type(ty),
        }
    }

    /// The types of a list, each with its variables replaced by what the
    /// substitution binds them to.
    fn apply_type_subst_to_types(&self, args: &Vec<Type>, subst: &Substitution) -> (r: Vec<Type>)
        ensures
            types_model(r@) == subst_types(types_model(args@), subst@),
        decreases *args,
    {
        let mut out: Vec<Type> = Vec::new();
        let mut i: usize = 0;
        while i < args.len()
            invariant
                i <= args.len(),
                out.len() == i,
                forall|k: int|
                    0 <= k < i ==> type_model(#[trigger] out@[k]) == subst_type(
                        type_model(args@[k]),
                        subst@,
                    ),
            decreases args.len() - i,
        {
            let a = self.apply_type_subst_to_type(&args[i], subst);
            out.push(a);
            i += 1;
        }
        assert(types_model(out@) =~= subst_types(types_model(args@), subst@));
        out
    }

    /// What a pattern match is on: the name and the variants of the type of
    /// the value on top of the stack, and the stack below that value.
    fn match_subject<'a>(&'a self, branches: &Vec<MatchBranch>, stack: &StackType) -> (r:
        TypeResult<(String, &'a Vec<Variant>, StackType)>)
        ensures
            match r {
                Ok((name, variants, rest)) => match_subject(
                    self@,
                    branches_model(branches@),
                    stack@,
                ) == Ok::<_, TypeErrorModel>((name@, variants_model(variants@))) && rest@ == popped(
                    stack@,
                ),
                Err(e) => match_subject(self@, branches_model(branches@), stack@) == Err::<
                    (Seq<char>, Seq<VariantModel>),
                    _,
                >(e@),
            },
    {
        let (rest, scrutinee) = match stack.pop() {
            Some(p) => p,
            None => {
                return Err(underflow_error("match"));
            },
        };
        let name = match &scrutinee {
            Type::Named { name, .. } => name.clone(),
            _ => {
                let mut message = String::from_str("Cannot pattern match on non-ADT type: ");
                let shown = type_to_text(&scrutinee);
                message.append(shown.as_str());
                return Err(TypeError::Other { message });
            },
        };
        let variants = match self.env.get_variants(name.as_str()) {
            Some(v) => v,
            None => {
                return Err(TypeError::UndefinedType { name });
            },
        };
        let missing = find_uncovered(variants, branches);
        if missing.len() > 0 {
            return Err(TypeError::NonExhaustiveMatch { adt_name: name, missing_variants: missing });
        }
        Ok((name, variants, rest))
    }

    /// The stack that a pattern match leaves.
    fn check_match(&self, expr: &Expr, stack: StackType) -> (r: TypeResult<StackType>)
        ensures
            stack_as(r) == check_match(self@, expr@, stack@),
        decreases *expr, 0nat,
    {
        let branches = match expr {
            Expr::Match { branches, .. } => branches,
            _ => {
                // Any other expression has no branches.
                let none: Vec<MatchBranch> = Vec::new();
                assert(branches_model(none@) =~= match_branches(expr@));
                return match self.match_subject(&none, &stack) {
                    Ok((name, variants, base)) => Ok(base),
                    Err(e) => Err(e),
                };
            },
        };
        assert(match_branches(expr@) == branches_model(branches@));
        let (name, variants, base) = match self.match_subject(branches, &stack) {
            Ok(s) => s,
            Err(e) => {
                return Err(e);
            },
        };
        if branches.len() == 0 {
            return Ok(base);
        }
        let results = match self.check_branch_list(variants, branches, &base) {
            Ok(r) => r,
            Err(e) => {
                return Err(e);
            },
        };
        check_consistent(name, &base, &results)
    }

    /// The stacks that the branches of a pattern match leave.
    fn check_branch_list(
        &self,
        variants: &Vec<Variant>,
        branches: &Vec<MatchBranch>,
        base: &StackType,
    ) -> (r: TypeResult<Vec<StackType>>)
        ensures
            match r {
                Ok(results) => check_branches(
                    self@,
                    variants_model(variants@),
                    branches_model(branches@),
                    base@,
                    Seq::empty(),
                    0,
                ) == Ok::<_, TypeErrorModel>(stacks_model(results@)),
                Err(e) => check_branches(
                    self@,
                    variants_model(variants@),
                    branches_model(branches@),
                    base@,
                    Seq::empty(),
                    0,
                ) == Err::<Seq<StackModel>, _>(e@),
            },
        decreases *branches, 0nat,
    {
        let mut results: Vec<StackType> = Vec::new();
        let mut i: usize = 0;
        assert(stacks_model(results@) =~= Seq::<StackModel>::empty());
        while i < branches.len()
            invariant
                i <= branches.len(),
                check_branches(
                    self@,
                    variants_model(variants@),
                    branches_model(branches@),
                    base@,
                    Seq::empty(),
                    0,
                ) == check_branches(
                    self@,
                    variants_model(variants@),
                    branches_model(branches@),
                    base@,
                    stacks_model(results@),
                    i as int,
                ),
            decreases branches.len() - i,
        {
            let v = match find_variant_index(variants, pattern_text(&branches[i].pattern)) {
                Some(v) => v,
                None => {
                    return Err(other_error("Unknown variant in pattern"));
                },
            };
            let start = push_all(copy_stack(base), &variants[v].fields);
            let s = match self.check_body(&branches[i].body, start) {
                Ok(s) => s,
                Err(e) => {
                    return Err(e);
                },
            };
            let ghost before = stacks_model(results@);
            results.push(s);
            assert(stacks_model(results@) =~= before.push(s@));
            i += 1;
        }
        Ok(results)
    }
}

/// The stack that the first result leaves, where all results unify with it.
fn check_consistent(name: String, base: &StackType, results: &Vec<StackType>) -> (r: TypeResult<
    StackType,
>)
    ensures
        stack_as(r) == consistent(name@, base@, stacks_model(results@), 1),
{
    if results.len() == 0 {
        return Ok(copy_stack(base));
    }
    let mut k: usize = 1;
    while k < results.len()
        invariant
            1 <= k,
            results.len() > 0,
            consistent(name@, base@, stacks_model(results@), 1) == consistent(
                name@,
                base@,
                stacks_model(results@),
                k as int,
            ),
        decreases results.len() - k,
    {
        if !unifies(&results[0], &results[k]) {
            let mut branch = String::from_str("branch ");
            push_decimal(&mut branch, k as u128);
            return Err(
                TypeError::InconsistentBranchEffects {
                    adt_name: name,
                    expected: Effect::new(copy_stack(base), copy_stack(&results[0])),
                    actual: Effect::new(copy_stack(base), copy_stack(&results[k])),
                    branch,
                },
            );
        }
        k += 1;
    }
    Ok(copy_stack(&results[0]))
}

impl Default for TypeChecker {
    fn default() -> (r: TypeChecker)
        ensures
            r@ == builtin_env(),
    {
        TypeChecker::new()
    }
}

} // verus!
