//! Laws of unification, of substitution and of exhaustiveness.

use vstd::prelude::*;
use crate::ast::{BranchModel, VariantModel};
use crate::ast::types::{EffectModel, StackModel, TypeModel};
use crate::typechecker::environment::EnvModel;
use crate::typechecker::errors::TypeErrorModel;
use crate::typechecker::rules::{match_subject, named_by, subst_type, subst_types, uncovered};
use crate::typechecker::unification::{
    BindingModel, BindingsModel, RowBindingModel, UnifyError, bind_type, lookup_type,
    merge_bindings, merge_rows, merge_types, no_bindings, unify_args, unify_effect, unify_stack,
    unify_stack_at, unify_type,
};

verus! {

/// Merging no bindings with no bindings gives no bindings.
pub proof fn lemma_merge_nothing()
    ensures
        merge_bindings(no_bindings(), no_bindings()) == Ok::<_, UnifyError>(no_bindings()),
{
    assert(merge_types(Seq::empty(), Seq::empty(), 0) == Ok::<_, UnifyError>(
        Seq::<BindingModel>::empty(),
    ));
    assert(merge_rows(Seq::empty(), Seq::empty(), 0) == Ok::<_, UnifyError>(
        Seq::<RowBindingModel>::empty(),
    ));
}

/// Every type unifies with itself, and nothing is bound.
pub proof fn unification_is_reflexive(t: TypeModel)
    ensures
        unify_type(t, t) == Ok::<_, UnifyError>(no_bindings()),
    decreases t, 0nat,
{
    match t {
        TypeModel::Named { name, args } => {
            lemma_args_reflexive(args, 0);
        },
        TypeModel::Quotation(effect) => {
            effect_unification_is_reflexive(effect);
        },
        _ => {},
    }
}

/// The arguments of a type unify with themselves, and nothing is bound.
pub proof fn lemma_args_reflexive(args: Seq<TypeModel>, i: int)
    requires
        0 <= i,
    ensures
        unify_args(args, args, no_bindings(), i) == Ok::<_, UnifyError>(no_bindings()),
    decreases args, args.len() - i,
{
    if i < args.len() {
        unification_is_reflexive(args[i]);
        lemma_merge_nothing();
        lemma_args_reflexive(args, i + 1);
    }
}

/// Every effect unifies with itself, and nothing is bound.
pub proof fn effect_unification_is_reflexive(e: EffectModel)
    ensures
        unify_effect(e, e) == Ok::<_, UnifyError>(no_bindings()),
    decreases e, 0nat,
{
    lemma_stack_reflexive(e.inputs, e.inputs.items.len());
    lemma_stack_reflexive(e.outputs, e.outputs.items.len());
    lemma_merge_nothing();
}

/// The lowest elements of a stack unify with themselves, and nothing is
/// bound.
pub proof fn lemma_stack_reflexive(s: StackModel, d: nat)
    requires
        d <= s.items.len(),
    ensures
        unify_stack_at(s, s, d, d) == Ok::<_, UnifyError>(no_bindings()),
    decreases s, d,
{
    if d > 0 {
        lemma_stack_reflexive(s, (d - 1) as nat);
        unification_is_reflexive(s.items[d - 1]);
        lemma_merge_nothing();
    }
}

/// Every stack type unifies with itself, and nothing is bound.
pub proof fn stack_unification_is_reflexive(s: StackModel)
    ensures
        unify_stack(s, s) == Ok::<_, UnifyError>(no_bindings()),
{
    lemma_stack_reflexive(s, s.items.len());
}

/// Whether a type holds no type variable outside quotation types.
pub open spec fn ground(t: TypeModel) -> bool
    decreases t,
{
    match t {
        TypeModel::Var(name) => false,
        TypeModel::Named { name, args } => forall|k: int|
            0 <= k < args.len() ==> ground(#[trigger] args[k]),
        _ => true,
    }
}

/// Whether a type holds no quotation type.
pub open spec fn plain(t: TypeModel) -> bool
    decreases t,
{
    match t {
        TypeModel::Quotation(effect) => false,
        TypeModel::Named { name, args } => forall|k: int|
            0 <= k < args.len() ==> plain(#[trigger] args[k]),
        _ => true,
    }
}

/// Whether the bindings bind every type variable of a type that stands
/// outside quotation types.
pub open spec fn covers(bindings: Seq<BindingModel>, t: TypeModel) -> bool
    decreases t,
{
    match t {
        TypeModel::Var(name) => lookup_type(bindings, name, 0) is Some,
        TypeModel::Named { name, args } => forall|k: int|
            0 <= k < args.len() ==> covers(bindings, #[trigger] args[k]),
        _ => true,
    }
}

/// Whether the bindings `more` bind every variable that `fewer` binds, and
/// to the same type.
pub open spec fn extends(more: Seq<BindingModel>, fewer: Seq<BindingModel>) -> bool {
    forall|x: Seq<char>| #[trigger]
        lookup_type(fewer, x, 0) is Some ==> lookup_type(more, x, 0) == lookup_type(fewer, x, 0)
}

/// A binding that is added behind others changes nothing for the variables
/// that the others bind, and binds its own variable where the others do
/// not.
pub proof fn lemma_lookup_push(
    bindings: Seq<BindingModel>,
    b: BindingModel,
    x: Seq<char>,
    from: int,
)
    requires
        0 <= from <= bindings.len(),
    ensures
        lookup_type(bindings, x, from) is Some ==> lookup_type(bindings.push(b), x, from)
            == lookup_type(bindings, x, from),
        lookup_type(bindings, x, from) is None && b.name == x ==> lookup_type(
            bindings.push(b),
            x,
            from,
        ) == Some(b.ty),
        lookup_type(bindings, x, from) is None && b.name != x ==> lookup_type(
            bindings.push(b),
            x,
            from,
        ) is None,
    decreases bindings.len() - from,
{
    if from < bindings.len() {
        assert(bindings.push(b)[from] == bindings[from]);
        if bindings[from].name != x {
            lemma_lookup_push(bindings, b, x, from + 1);
        }
    } else {
        assert(bindings.push(b)[from] == b);
        assert(lookup_type(bindings.push(b), x, from + 1) is None);
    }
}

/// What a lookup finds is the type of a binding of the variable.
pub proof fn lemma_lookup_found(bindings: Seq<BindingModel>, x: Seq<char>, from: int) -> (j: int)
    requires
        0 <= from,
        lookup_type(bindings, x, from) is Some,
    ensures
        from <= j < bindings.len(),
        bindings[j].name == x,
        lookup_type(bindings, x, from) == Some(bindings[j].ty),
    decreases bindings.len() - from,
{
    if bindings[from].name == x {
        from
    } else {
        lemma_lookup_found(bindings, x, from + 1)
    }
}

/// Merged bindings keep what both sides bind: after bindings are merged
/// with success, the result binds every variable that the first bindings
/// bind, to the same type, and honours every binding of the second from
/// position `i` on.
pub proof fn lemma_merge_keeps(acc: Seq<BindingModel>, more: Seq<BindingModel>, i: int)
    requires
        0 <= i,
        merge_types(acc, more, i) is Ok,
    ensures
        extends(merge_types(acc, more, i)->Ok_0, acc),
        forall|j: int|
            i <= j < more.len() ==> lookup_type(
                merge_types(acc, more, i)->Ok_0,
                #[trigger] more[j].name,
                0,
            ) == Some(more[j].ty),
    decreases more.len() - i,
{
    let m = merge_types(acc, more, i)->Ok_0;
    if i < more.len() {
        match lookup_type(acc, more[i].name, 0) {
            Some(t) => {
                lemma_merge_keeps(acc, more, i + 1);
            },
            None => {
                let next = acc.push(more[i]);
                lemma_merge_keeps(next, more, i + 1);
                lemma_lookup_push(acc, more[i], more[i].name, 0);
                assert forall|x: Seq<char>| #[trigger]
                    lookup_type(acc, x, 0) is Some implies lookup_type(m, x, 0) == lookup_type(
                    acc,
                    x,
                    0,
                ) by {
                    lemma_lookup_push(acc, more[i], x, 0);
                }
            },
        }
    }
}

/// Merged bindings extend both sides.
pub proof fn merge_extends_both(a: BindingsModel, b: BindingsModel)
    requires
        merge_bindings(a, b) is Ok,
    ensures
        extends(merge_bindings(a, b)->Ok_0.types, a.types),
        extends(merge_bindings(a, b)->Ok_0.types, b.types),
{
    let m = merge_types(a.types, b.types, 0)->Ok_0;
    lemma_merge_keeps(a.types, b.types, 0);
    assert forall|x: Seq<char>| #[trigger]
        lookup_type(b.types, x, 0) is Some implies lookup_type(m, x, 0) == lookup_type(
        b.types,
        x,
        0,
    ) by {
        let j = lemma_lookup_found(b.types, x, 0);
    }
}

/// Extension goes on: bindings that extend bindings that extend others
/// extend those others.
pub proof fn lemma_extends_trans(a: Seq<BindingModel>, b: Seq<BindingModel>, c: Seq<BindingModel>)
    requires
        extends(a, b),
        extends(b, c),
    ensures
        extends(a, c),
{
    assert forall|x: Seq<char>| #[trigger] lookup_type(c, x, 0) is Some implies lookup_type(
        a,
        x,
        0,
    ) == lookup_type(c, x, 0) by {
        assert(lookup_type(b, x, 0) is Some);
    }
}

/// Substitution looks only at the variables of the type: bindings that
/// extend bindings that cover a type substitute in it as those do.
pub proof fn lemma_subst_extends(t: TypeModel, more: Seq<BindingModel>, fewer: Seq<BindingModel>)
    requires
        extends(more, fewer),
        covers(fewer, t),
    ensures
        covers(more, t),
        subst_type(t, more) == subst_type(t, fewer),
    decreases t,
{
    match t {
        TypeModel::Var(name) => {
            assert(lookup_type(fewer, name, 0) is Some);
        },
        TypeModel::Named { name, args } => {
            assert forall|k: int| 0 <= k < args.len() implies covers(more, #[trigger] args[k])
                && subst_type(args[k], more) == subst_type(args[k], fewer) by {
                lemma_subst_extends(args[k], more, fewer);
            }
            assert(subst_types(args, more) =~= subst_types(args, fewer));
        },
        _ => {},
    }
}

/// Instantiation: where a type without type variables unifies with a type
/// without quotations, the bindings found bind every variable of the
/// second type, and the second type with its variables replaced by what
/// they are bound to is the first type.
pub proof fn unification_instantiates(a: TypeModel, b: TypeModel)
    requires
        ground(a),
        plain(b),
        unify_type(a, b) is Ok,
    ensures
        covers(unify_type(a, b)->Ok_0.types, b),
        subst_type(b, unify_type(a, b)->Ok_0.types) == a,
    decreases b, 0nat,
{
    match b {
        TypeModel::Var(y) => {
            assert(bind_type(y, a).types[0].name == y);
        },
        TypeModel::Named { name: n2, args: a2 } => {
            match a {
                TypeModel::Named { name: n1, args: a1 } => {
                    lemma_args_instantiate(a1, a2, no_bindings(), 0);
                    let s = unify_type(a, b)->Ok_0;
                    assert(subst_types(a2, s.types) =~= a1);
                },
                _ => {},
            }
        },
        _ => {},
    }
}

/// Instantiation, for the arguments of a type: every argument of the
/// second type from position `i` on, with its variables replaced, is the
/// argument of the first type at the same position, and the bindings found
/// extend those from which the unification went on.
pub proof fn lemma_args_instantiate(
    a1: Seq<TypeModel>,
    a2: Seq<TypeModel>,
    acc: BindingsModel,
    i: int,
)
    requires
        0 <= i,
        a1.len() == a2.len(),
        forall|k: int| 0 <= k < a1.len() ==> ground(#[trigger] a1[k]),
        forall|k: int| 0 <= k < a2.len() ==> plain(#[trigger] a2[k]),
        unify_args(a1, a2, acc, i) is Ok,
    ensures
        extends(unify_args(a1, a2, acc, i)->Ok_0.types, acc.types),
        forall|k: int|
            i <= k < a2.len() ==> covers(unify_args(a1, a2, acc, i)->Ok_0.types, #[trigger] a2[k])
                && subst_type(a2[k], unify_args(a1, a2, acc, i)->Ok_0.types) == a1[k],
    decreases a2, a2.len() - i,
{
    if i < a1.len() {
        let b = unify_type(a1[i], a2[i])->Ok_0;
        unification_instantiates(a1[i], a2[i]);
        let m = merge_bindings(acc, b)->Ok_0;
        merge_extends_both(acc, b);
        lemma_args_instantiate(a1, a2, m, i + 1);
        let s = unify_args(a1, a2, acc, i)->Ok_0;
        lemma_extends_trans(s.types, m.types, acc.types);
        lemma_extends_trans(s.types, m.types, b.types);
        lemma_subst_extends(a2[i], s.types, b.types);
    }
}

/// Instantiation, for stacks: where a stack of types without type
/// variables unifies with a stack of types without quotations, and neither
/// stands on a row variable, the stacks are equally deep, and every element
/// of the second stack, with its variables replaced by what they are bound
/// to, is the element of the first stack at the same place.
pub proof fn stack_unification_instantiates(sa: StackModel, sb: StackModel, d1: nat, d2: nat)
    requires
        sa.row is None,
        sb.row is None,
        d1 <= sa.items.len(),
        d2 <= sb.items.len(),
        forall|k: int| 0 <= k < sa.items.len() ==> ground(#[trigger] sa.items[k]),
        forall|k: int| 0 <= k < sb.items.len() ==> plain(#[trigger] sb.items[k]),
        unify_stack_at(sa, sb, d1, d2) is Ok,
    ensures
        d1 == d2,
        forall|k: int|
            0 <= k < d1 ==> covers(unify_stack_at(sa, sb, d1, d2)->Ok_0.types, #[trigger] sb.items[k])
                && subst_type(sb.items[k], unify_stack_at(sa, sb, d1, d2)->Ok_0.types)
                == sa.items[k],
    decreases d1,
{
    if d1 > 0 && d2 > 0 {
        let below = unify_stack_at(sa, sb, (d1 - 1) as nat, (d2 - 1) as nat)->Ok_0;
        stack_unification_instantiates(sa, sb, (d1 - 1) as nat, (d2 - 1) as nat);
        let top = unify_type(sa.items[d1 - 1], sb.items[d2 - 1])->Ok_0;
        unification_instantiates(sa.items[d1 - 1], sb.items[d2 - 1]);
        merge_extends_both(below, top);
        let s = unify_stack_at(sa, sb, d1, d2)->Ok_0;
        lemma_subst_extends(sb.items[d2 - 1], s.types, top.types);
        assert forall|k: int| 0 <= k < d1 - 1 implies covers(s.types, #[trigger] sb.items[k])
            && subst_type(sb.items[k], s.types) == sa.items[k] by {
            lemma_subst_extends(sb.items[k], s.types, below.types);
        }
    }
}

/// Instantiation, for the inputs of a word: where the elements taken off
/// the stack hold no type variables and unify with inputs that hold no
/// quotations and stand on no row variable, the inputs with their
/// variables replaced are the elements taken.
pub proof fn inputs_are_instantiated(consumed: StackModel, inputs: StackModel)
    requires
        consumed.row is None,
        inputs.row is None,
        forall|k: int| 0 <= k < consumed.items.len() ==> ground(#[trigger] consumed.items[k]),
        forall|k: int| 0 <= k < inputs.items.len() ==> plain(#[trigger] inputs.items[k]),
        unify_stack(consumed, inputs) is Ok,
    ensures
        subst_types(inputs.items, unify_stack(consumed, inputs)->Ok_0.types) == consumed.items,
{
    stack_unification_instantiates(
        consumed,
        inputs,
        consumed.items.len(),
        inputs.items.len(),
    );
    assert(subst_types(inputs.items, unify_stack(consumed, inputs)->Ok_0.types)
        =~= consumed.items);
}

/// A variant is named by the branches exactly if one of them has its
/// name, wherever among them that branch stands.
pub proof fn naming_ignores_order(branches: Seq<BranchModel>, name: Seq<char>, i: int)
    requires
        0 <= i,
    ensures
        named_by(branches, name, i) <==> exists|j: int|
            i <= j < branches.len() && (#[trigger] branches[j]).variant == name,
    decreases branches.len() - i,
{
    if i < branches.len() {
        naming_ignores_order(branches, name, i + 1);
        if branches[i].variant != name {
            if named_by(branches, name, i + 1) {
                let j = choose|j: int|
                    i + 1 <= j < branches.len() && (#[trigger] branches[j]).variant == name;
                assert(i <= j < branches.len() && branches[j].variant == name);
            }
        }
    }
}

/// The missing variants are the variants that no branch names: a name is
/// among them exactly if it was among them before or is the name of a
/// variant from position `i` on that no branch names.
pub proof fn missing_are_the_unnamed(
    variants: Seq<VariantModel>,
    branches: Seq<BranchModel>,
    missing: Seq<Seq<char>>,
    i: int,
    name: Seq<char>,
)
    requires
        0 <= i,
    ensures
        uncovered(variants, branches, missing, i).contains(name) <==> missing.contains(name) || (
        !named_by(branches, name, 0) && exists|k: int|
            i <= k < variants.len() && (#[trigger] variants[k]).name == name),
    decreases variants.len() - i,
{
    if i < variants.len() {
        if named_by(branches, variants[i].name, 0) {
            missing_are_the_unnamed(variants, branches, missing, i + 1, name);
        } else {
            let next = missing.push(variants[i].name);
            missing_are_the_unnamed(variants, branches, next, i + 1, name);
            assert(next[missing.len() as int] == variants[i].name);
            assert(forall|m: int| 0 <= m < missing.len() ==> next[m] == missing[m]);
            if missing.contains(name) {
                let m = choose|m: int| 0 <= m < missing.len() && missing[m] == name;
                assert(next[m] == name);
            }
        }
        if exists|k: int| i + 1 <= k < variants.len() && (#[trigger] variants[k]).name == name {
            let k = choose|k: int|
                i + 1 <= k < variants.len() && (#[trigger] variants[k]).name == name;
            assert(i <= k < variants.len() && variants[k].name == name);
        }
    }
}

/// The missing variants do not depend on the order of the branches: two
/// lists of branches that name the same variants miss the same variants,
/// in the same order.
pub proof fn missing_ignores_branch_order(
    variants: Seq<VariantModel>,
    first: Seq<BranchModel>,
    second: Seq<BranchModel>,
    missing: Seq<Seq<char>>,
    i: int,
)
    requires
        forall|name: Seq<char>| named_by(first, name, 0) == named_by(second, name, 0),
    ensures
        uncovered(variants, first, missing, i) == uncovered(variants, second, missing, i),
    decreases variants.len() - i,
{
    if 0 <= i < variants.len() {
        if named_by(first, variants[i].name, 0) {
            missing_ignores_branch_order(variants, first, second, missing, i + 1);
        } else {
            missing_ignores_branch_order(
                variants,
                first,
                second,
                missing.push(variants[i].name),
                i + 1,
            );
        }
    }
}

/// A pattern match on a value of a declared type is refused as not
/// exhaustive exactly if a variant of the type is missing, and the error
/// lists the missing variants.
pub proof fn non_exhaustive_exactly_if_missing(
    env: EnvModel,
    branches: Seq<BranchModel>,
    stack: StackModel,
    name: Seq<char>,
    args: Seq<TypeModel>,
)
    requires
        stack.items.len() > 0,
        stack.items.last() == (TypeModel::Named { name, args }),
        env.types.contains_key(name),
    ensures
        match_subject(env, branches, stack) is Err <==> uncovered(
            env.types[name],
            branches,
            Seq::empty(),
            0,
        ).len() > 0,
        match_subject(env, branches, stack) is Err ==> match_subject(env, branches, stack)
            == Err::<(Seq<char>, Seq<VariantModel>), _>(
            TypeErrorModel::NonExhaustiveMatch {
                adt_name: name,
                missing_variants: uncovered(env.types[name], branches, Seq::empty(), 0),
            },
        ),
{
}

} // verus!
