//! Laws that tie the effect checker and the generator together: in a
//! program that passed the effect check, every call in a checked place
//! reaches a function, so the generator never meets an unknown word there.

use vstd::prelude::*;
use crate::ast::{
    BranchModel, ExprModel, ProgramModel, TypeDefModel, VariantModel, WordModel, find_variant,
    match_branches,
};
use crate::ast::types::{StackModel, popped};
use crate::codegen::error::CodegenErrorModel;
use crate::codegen::laws::lemma_find_variant_name;
use crate::codegen::lines::{case_label, label_line, match_merge_label, word_header};
use crate::codegen::model::{
    GenModel, IncomingModel, SubprogramModel, arrivals, branch_for, collect_files, compile,
    debug_header, declare, emit, enter, find_file, find_type, has_word, if_else, if_start,
    leave_branch, lower_branch, lower_cases, lower_expr, lower_from, lower_match, lower_word,
    lower_words, match_start, module_header, push_fields, quotation_start, resolve_callee,
    unmatched_case, variants_at,
};
use crate::codegen::runtime::{RUNTIME_FUNCTION_COUNT, callable, find_runtime, runtime_entry};
use crate::typechecker::environment::{
    BUILTIN_COUNT, EnvModel, builtin_env, builtin_name, builtin_words,
};
use crate::typechecker::rules::{
    add_types, check_branch, check_branches, check_expr, check_from, check_match, check_program,
    check_word, check_words, match_subject, take_condition,
};

verus! {

/// Whether a call of `name` reaches a function.
pub open spec fn known(p: ProgramModel, name: Seq<char>) -> bool {
    resolve_callee(p, name) is Some
}

/// Whether every call in an expression, at any depth, reaches a function.
pub open spec fn calls_known(p: ProgramModel, e: ExprModel) -> bool
    decreases e,
{
    match e {
        ExprModel::WordCall(name, loc) => known(p, name),
        ExprModel::Quotation(body, loc) => bodies_known(p, body),
        ExprModel::Match { branches, loc } => forall|j: int|
            0 <= j < branches.len() ==> bodies_known(p, (#[trigger] branches[j]).body),
        ExprModel::If { then_branch, else_branch, loc } => calls_known(p, *then_branch)
            && calls_known(p, *else_branch),
        ExprModel::While { condition, body, loc } => calls_known(p, *condition) && calls_known(
            p,
            *body,
        ),
        _ => true,
    }
}

/// Whether every call in the expressions of a body reaches a function.
pub open spec fn bodies_known(p: ProgramModel, body: Seq<ExprModel>) -> bool
    decreases body,
{
    forall|k: int| 0 <= k < body.len() ==> calls_known(p, #[trigger] body[k])
}

/// Whether an expression pushes no quotation: quotations stand in it only
/// as the branches of conditionals and as the parts of loops, where the
/// effect checker looks into them.
pub open spec fn pushes_no_quotation(e: ExprModel) -> bool
    decreases e, 0nat,
{
    match e {
        ExprModel::Quotation(body, loc) => false,
        ExprModel::Match { branches, loc } => forall|j: int|
            0 <= j < branches.len() ==> body_pushes_no_quotation((#[trigger] branches[j]).body),
        ExprModel::If { then_branch, else_branch, loc } => branch_pushes_no_quotation(
            *then_branch,
        ) && branch_pushes_no_quotation(*else_branch),
        ExprModel::While { condition, body, loc } => branch_pushes_no_quotation(*condition)
            && branch_pushes_no_quotation(*body),
        _ => true,
    }
}

/// Whether a branch of a conditional or a part of a loop pushes no
/// quotation.
pub open spec fn branch_pushes_no_quotation(branch: ExprModel) -> bool
    decreases branch, 1nat,
{
    match branch {
        ExprModel::Quotation(body, loc) => body_pushes_no_quotation(body),
        _ => pushes_no_quotation(branch),
    }
}

/// Whether no expression of a body pushes a quotation.
pub open spec fn body_pushes_no_quotation(body: Seq<ExprModel>) -> bool
    decreases body, 0nat,
{
    forall|k: int| 0 <= k < body.len() ==> pushes_no_quotation(#[trigger] body[k])
}

/// Whether every word that an environment knows reaches a function.
pub open spec fn env_known(env: EnvModel, p: ProgramModel) -> bool {
    forall|name: Seq<char>| #[trigger] env.words.contains_key(name) ==> known(p, name)
}

/// Whether a step of the generator failed on an unknown word.
pub open spec fn unknown_word<T>(r: Result<T, CodegenErrorModel>) -> bool {
    r is Err && r->Err_0 is UnknownWord
}

/// A runtime function that stands in the list is found, at its place or
/// before it.
pub proof fn lemma_runtime_found(name: Seq<char>, from: int, k: int)
    requires
        0 <= from <= k < RUNTIME_FUNCTION_COUNT,
        runtime_entry(k).name == name,
    ensures
        find_runtime(name, from) is Some,
        from <= find_runtime(name, from)->0 <= k,
    decreases k - from,
{
    if runtime_entry(from).name != name {
        lemma_runtime_found(name, from + 1, k);
    }
}

/// A name that stands among the first twelve runtime functions, which all
/// take and return a stack, is found among them.
pub proof fn lemma_stack_function_found(name: Seq<char>, k: int)
    requires
        0 <= k <= 11,
        runtime_entry(k).name == name,
    ensures
        find_runtime(name, 0) is Some,
        callable(runtime_entry(find_runtime(name, 0)->0)),
{
    lemma_runtime_found(name, 0, k);
}

/// The first twelve runtime functions are found by their names.
pub proof fn lemma_stack_functions_found()
    ensures
        forall|k: int|
            0 <= k <= 11 ==> find_runtime(#[trigger] runtime_entry(k).name, 0) is Some && callable(
                runtime_entry(find_runtime(runtime_entry(k).name, 0)->0),
            ),
{
    assert forall|k: int| 0 <= k <= 11 implies find_runtime(
        #[trigger] runtime_entry(k).name,
        0,
    ) is Some && callable(runtime_entry(find_runtime(runtime_entry(k).name, 0)->0)) by {
        lemma_stack_function_found(runtime_entry(k).name, k);
    }
}

/// Every built-in word of the effect checker reaches a function.
pub proof fn lemma_builtin_known(p: ProgramModel, i: int)
    requires
        0 <= i < BUILTIN_COUNT,
    ensures
        known(p, builtin_name(i)),
{
    lemma_stack_functions_found();
    assert(runtime_entry(0).name == "dup"@);
    assert(runtime_entry(1).name == "drop"@);
    assert(runtime_entry(2).name == "swap"@);
    assert(runtime_entry(3).name == "over"@);
    assert(runtime_entry(4).name == "rot"@);
    assert(runtime_entry(5).name == "add"@);
    assert(runtime_entry(6).name == "subtract"@);
    assert(runtime_entry(7).name == "multiply"@);
    assert(runtime_entry(8).name == "divide"@);
    assert(runtime_entry(9).name == "less_than"@);
    assert(runtime_entry(10).name == "greater_than"@);
    assert(runtime_entry(11).name == "equal"@);
    if i >= 12 {
        reveal_strlit("call");
        reveal_strlit("if");
        reveal_strlit("add");
        reveal_strlit("subtract");
        reveal_strlit("multiply");
        reveal_strlit("divide");
        reveal_strlit("less_than");
        reveal_strlit("greater_than");
        reveal_strlit("equal");
        assert("call"@.len() == 4 && "if"@.len() == 2);
        assert("add"@.len() == 3 && "subtract"@.len() == 8 && "multiply"@.len() == 8);
        assert("divide"@.len() == 6 && "less_than"@.len() == 9 && "equal"@.len() == 5);
        assert("greater_than"@.len() == 12);
        assert(builtin_name(i).len() != 4 && builtin_name(i).len() != 2);
    }
}

/// The names that the built-in environment knows are the names of the
/// list of built-in words.
pub proof fn lemma_builtin_names(n: int, name: Seq<char>)
    requires
        0 <= n,
        builtin_words(n).contains_key(name),
    ensures
        exists|i: int| 0 <= i < n && name == #[trigger] builtin_name(i),
    decreases n,
{
    if n > 0 {
        if name != builtin_name(n - 1) {
            lemma_builtin_names(n - 1, name);
            let i = choose|i: int| 0 <= i < n - 1 && name == #[trigger] builtin_name(i);
            assert(0 <= i < n && name == builtin_name(i));
        }
    }
}

/// Every word that the built-in environment knows reaches a function.
pub proof fn lemma_builtins_known(p: ProgramModel)
    ensures
        env_known(builtin_env(), p),
{
    assert forall|name: Seq<char>| #[trigger]
        builtin_env().words.contains_key(name) implies known(p, name) by {
        lemma_builtin_names(BUILTIN_COUNT as int, name);
        let i = choose|i: int| 0 <= i < BUILTIN_COUNT && name == #[trigger] builtin_name(i);
        lemma_builtin_known(p, i);
    }
}

/// A word of the program is found by its name.
pub proof fn lemma_word_found(words: Seq<WordModel>, from: int, k: int)
    requires
        0 <= from <= k < words.len(),
    ensures
        has_word(words, words[k].name, from),
    decreases k - from,
{
    if words[from].name != words[k].name {
        lemma_word_found(words, from + 1, k);
    }
}

/// Making types known changes nothing for words.
pub proof fn lemma_add_types_keeps_words(env: EnvModel, defs: Seq<TypeDefModel>, i: int)
    ensures
        add_types(env, defs, i).words == env.words,
    decreases defs.len() - i,
{
    if 0 <= i < defs.len() {
        lemma_add_types_keeps_words(
            EnvModel { types: env.types.insert(defs[i].name, defs[i].variants), ..env },
            defs,
            i + 1,
        );
    }
}

/// In an expression that is checked with success and pushes no quotation,
/// every call reaches a function, where every word that the environment
/// knows does.
pub proof fn lemma_checked_expr(env: EnvModel, p: ProgramModel, e: ExprModel, stack: StackModel)
    requires
        check_expr(env, e, stack) is Ok,
        env_known(env, p),
        pushes_no_quotation(e),
    ensures
        calls_known(p, e),
    decreases e, 1nat,
{
    match e {
        ExprModel::WordCall(name, loc) => {
            assert(env.words.contains_key(name));
        },
        ExprModel::Match { branches, loc } => {
            lemma_checked_match(env, p, e, stack);
        },
        ExprModel::If { then_branch, else_branch, loc } => {
            let rest = take_condition(stack, "if"@, "if condition"@)->Ok_0;
            lemma_checked_branch(env, p, *then_branch, rest);
            lemma_checked_branch(env, p, *else_branch, rest);
        },
        ExprModel::While { condition, body, loc } => {
            lemma_checked_branch(env, p, *condition, stack);
            lemma_checked_branch(env, p, *body, stack);
        },
        _ => {},
    }
}

/// In a branch that is checked with success and pushes no quotation, every
/// call reaches a function.
pub proof fn lemma_checked_branch(
    env: EnvModel,
    p: ProgramModel,
    branch: ExprModel,
    stack: StackModel,
)
    requires
        check_branch(env, branch, stack) is Ok,
        env_known(env, p),
        branch_pushes_no_quotation(branch),
    ensures
        calls_known(p, branch),
    decreases branch, 2nat,
{
    match branch {
        ExprModel::Quotation(body, loc) => {
            lemma_checked_from(env, p, body, stack, 0);
            assert(bodies_known(p, body));
        },
        _ => {
            lemma_checked_expr(env, p, branch, stack);
        },
    }
}

/// In a body that is checked with success from position `i` on and pushes
/// no quotation, every call from that position on reaches a function.
pub proof fn lemma_checked_from(
    env: EnvModel,
    p: ProgramModel,
    body: Seq<ExprModel>,
    stack: StackModel,
    i: int,
)
    requires
        0 <= i,
        check_from(env, body, stack, i) is Ok,
        env_known(env, p),
        body_pushes_no_quotation(body),
    ensures
        forall|k: int| i <= k < body.len() ==> calls_known(p, #[trigger] body[k]),
    decreases body, body.len() - i,
{
    if i < body.len() {
        lemma_checked_expr(env, p, body[i], stack);
        lemma_checked_from(env, p, body, check_expr(env, body[i], stack)->Ok_0, i + 1);
    }
}

/// In a pattern match that is checked with success and pushes no
/// quotation, every call reaches a function.
pub proof fn lemma_checked_match(env: EnvModel, p: ProgramModel, e: ExprModel, stack: StackModel)
    requires
        check_match(env, e, stack) is Ok,
        env_known(env, p),
        pushes_no_quotation(e),
        e is Match,
    ensures
        calls_known(p, e),
    decreases e, 0nat,
{
    let branches = match_branches(e);
    let (name, variants) = match_subject(env, branches, stack)->Ok_0;
    lemma_checked_branches(
        env,
        p,
        variants,
        branches,
        popped(stack),
        Seq::empty(),
        0,
    );
}

/// In the branches of a pattern match that are checked with success from
/// position `i` on, every call reaches a function.
pub proof fn lemma_checked_branches(
    env: EnvModel,
    p: ProgramModel,
    variants: Seq<VariantModel>,
    branches: Seq<BranchModel>,
    base: StackModel,
    results: Seq<StackModel>,
    i: int,
)
    requires
        0 <= i,
        check_branches(env, variants, branches, base, results, i) is Ok,
        env_known(env, p),
        forall|j: int|
            0 <= j < branches.len() ==> body_pushes_no_quotation((#[trigger] branches[j]).body),
    ensures
        forall|j: int| i <= j < branches.len() ==> bodies_known(p, (#[trigger] branches[j]).body),
    decreases branches, branches.len() - i,
{
    if i < branches.len() {
        let v = find_variant(variants, branches[i].variant, 0)->0;
        lemma_find_variant_name(variants, branches[i].variant, 0);
        if 0 <= v < variants.len() {
            let start = StackModel { row: base.row, items: base.items + variants[v].fields };
            lemma_checked_from(env, p, branches[i].body, start, 0);
            assert(bodies_known(p, branches[i].body));
            lemma_checked_branches(
                env,
                p,
                variants,
                branches,
                base,
                results.push(check_from(env, branches[i].body, start, 0)->Ok_0),
                i + 1,
            );
        }
    }
}

/// Lowering an expression in which every call reaches a function never
/// fails on an unknown word.
pub proof fn lemma_lowered_expr(
    p: ProgramModel,
    g: GenModel,
    e: ExprModel,
    stack: Seq<char>,
    tail: bool,
)
    requires
        calls_known(p, e),
    ensures
        !unknown_word(lower_expr(p, g, e, stack, tail)),
    decreases e, 1nat,
{
    match e {
        ExprModel::Quotation(body, loc) => {
            lemma_lowered_from(p, quotation_start(g), body, "stack"@, true, 0);
        },
        ExprModel::Match { branches, loc } => {
            lemma_lowered_match(p, g, e, stack, tail);
        },
        ExprModel::If { then_branch, else_branch, loc } => {
            let (g1, rest) = if_start(g, stack);
            lemma_lowered_branch(p, g1, *then_branch, rest, tail);
            if lower_branch(p, g1, *then_branch, rest, tail) is Ok {
                let (g2, t) = lower_branch(p, g1, *then_branch, rest, tail)->Ok_0;
                lemma_lowered_branch(p, if_else(g2, t, g.temp), *else_branch, rest, tail);
            }
        },
        _ => {},
    }
}

/// Lowering a body in which every call reaches a function never fails on
/// an unknown word.
pub proof fn lemma_lowered_from(
    p: ProgramModel,
    g: GenModel,
    body: Seq<ExprModel>,
    stack: Seq<char>,
    tail: bool,
    i: int,
)
    requires
        bodies_known(p, body),
    ensures
        !unknown_word(lower_from(p, g, body, stack, tail, i)),
    decreases body, body.len() - i,
{
    if 0 <= i < body.len() {
        let last = tail && i == body.len() - 1;
        lemma_lowered_expr(p, g, body[i], stack, last);
        if lower_expr(p, g, body[i], stack, last) is Ok && i != body.len() - 1 {
            let (g1, l) = lower_expr(p, g, body[i], stack, last)->Ok_0;
            lemma_lowered_from(p, g1, body, l.value, tail, i + 1);
        }
    }
}

/// Lowering a branch in which every call reaches a function never fails on
/// an unknown word.
pub proof fn lemma_lowered_branch(
    p: ProgramModel,
    g: GenModel,
    branch: ExprModel,
    stack: Seq<char>,
    tail: bool,
)
    requires
        calls_known(p, branch),
    ensures
        !unknown_word(lower_branch(p, g, branch, stack, tail)),
    decreases branch, 0nat,
{
    match branch {
        ExprModel::Quotation(body, loc) => {
            lemma_lowered_from(p, g, body, stack, tail, 0);
        },
        _ => {},
    }
}

/// Lowering a pattern match in which every call reaches a function never
/// fails on an unknown word.
pub proof fn lemma_lowered_match(
    p: ProgramModel,
    g: GenModel,
    e: ExprModel,
    stack: Seq<char>,
    tail: bool,
)
    requires
        calls_known(p, e),
        e is Match,
    ensures
        !unknown_word(lower_match(p, g, e, stack, tail)),
    decreases e, 0nat,
{
    let branches = match_branches(e);
    if branches.len() > 0 && find_type(p.type_defs, branches[0].variant, 0) is Some {
        let t = find_type(p.type_defs, branches[0].variant, 0)->0;
        let variants = variants_at(p.type_defs, t);
        let head = match_start(g, variants.len() as int, stack);
        lemma_lowered_cases(
            p,
            head.state,
            g.temp,
            variants,
            branches,
            head.fields,
            head.rest,
            tail,
            Seq::empty(),
            0,
        );
    }
}

/// Lowering the blocks of the variants of a pattern match in which every
/// call reaches a function never fails on an unknown word.
pub proof fn lemma_lowered_cases(
    p: ProgramModel,
    g: GenModel,
    id: int,
    variants: Seq<VariantModel>,
    branches: Seq<BranchModel>,
    fields: Seq<char>,
    rest: Seq<char>,
    tail: bool,
    incoming: Seq<IncomingModel>,
    i: int,
)
    requires
        forall|j: int| 0 <= j < branches.len() ==> bodies_known(p, (#[trigger] branches[j]).body),
    ensures
        !unknown_word(lower_cases(p, g, id, variants, branches, fields, rest, tail, incoming, i)),
    decreases branches, variants.len() - i,
{
    if 0 <= i < variants.len() {
        match branch_for(branches, variants[i].name, 0) {
            None => {
                lemma_lowered_cases(
                    p,
                    unmatched_case(g, id, i),
                    id,
                    variants,
                    branches,
                    fields,
                    rest,
                    tail,
                    incoming,
                    i + 1,
                );
            },
            Some(j) => {
                if 0 <= j < branches.len() {
                    let label = case_label(id + 1 + i);
                    let g1 = enter(
                        emit(g, label_line(label)),
                        label,
                    );
                    if push_fields(g1, variants[i].fields.len() as int, fields, rest) is Ok {
                        let (g2, start) = push_fields(
                            g1,
                            variants[i].fields.len() as int,
                            fields,
                            rest,
                        )->Ok_0;
                        lemma_lowered_from(p, g2, branches[j].body, start, tail, 0);
                        if lower_from(p, g2, branches[j].body, start, tail, 0) is Ok {
                            let (g3, l) = lower_from(p, g2, branches[j].body, start, tail, 0)->Ok_0;
                            lemma_lowered_cases(
                                p,
                                leave_branch(
                                    g3,
                                    l,
                                    match_merge_label(id),
                                ),
                                id,
                                variants,
                                branches,
                                fields,
                                rest,
                                tail,
                                arrivals(incoming, g3, l),
                                i + 1,
                            );
                        }
                    }
                }
            },
        }
    }
}

/// In the words of a program that are checked with success from position
/// `i` on and push no quotation, every call reaches a function.
pub proof fn lemma_checked_words(env: EnvModel, p: ProgramModel, i: int)
    requires
        0 <= i,
        check_words(env, p.word_defs, i) is Ok,
        env_known(env, p),
        forall|k: int|
            0 <= k < p.word_defs.len() ==> body_pushes_no_quotation(
                (#[trigger] p.word_defs[k]).body,
            ),
    ensures
        forall|k: int|
            i <= k < p.word_defs.len() ==> bodies_known(p, (#[trigger] p.word_defs[k]).body),
    decreases p.word_defs.len() - i,
{
    if i < p.word_defs.len() {
        let w = p.word_defs[i];
        lemma_checked_from(env, p, w.body, w.effect.inputs, 0);
        assert(bodies_known(p, w.body));
        let next = check_word(env, w)->Ok_0;
        assert forall|name: Seq<char>| #[trigger] next.words.contains_key(name) implies known(
            p,
            name,
        ) by {
            if name == w.name {
                lemma_word_found(p.word_defs, 0, i);
            } else {
                assert(env.words.contains_key(name));
            }
        }
        lemma_checked_words(next, p, i + 1);
    }
}

/// Compiling words in which every call reaches a function never fails on
/// an unknown word.
pub proof fn lemma_lowered_words(p: ProgramModel, g: GenModel, i: int)
    requires
        forall|k: int|
            0 <= k < p.word_defs.len() ==> bodies_known(p, (#[trigger] p.word_defs[k]).body),
    ensures
        !unknown_word(lower_words(p, g, i)),
    decreases p.word_defs.len() - i,
{
    if 0 <= i < p.word_defs.len() {
        let w = p.word_defs[i];
        if g.meta < usize::MAX {
            let id = g.meta;
            let file_id = match find_file(g.files, w.loc.file, 0) {
                Some(f) => f,
                None => 0,
            };
            let g1 = GenModel {
                temp: 0,
                block: "entry"@,
                meta: g.meta + 1,
                subprograms: g.subprograms.push(
                    SubprogramModel {
                        name: w.name,
                        file_id,
                        line: w.loc.line as int,
                        id,
                    },
                ),
                scope: Some(id),
                ..g
            };
            lemma_lowered_from(
                p,
                emit(g1, word_header(w.name, id)),
                w.body,
                "stack"@,
                true,
                0,
            );
        }
        if lower_word(p, g, w) is Ok {
            lemma_lowered_words(p, lower_word(p, g, w)->Ok_0, i + 1);
        }
    }
}

/// Unknown words are unreachable after a successful effect check: where a
/// program passes the effect check, pushes no quotation, and its entry
/// word, if one is asked for, reaches a function, compiling the program
/// never fails on an unknown word.
pub proof fn checked_program_knows_its_words(
    p: ProgramModel,
    g: GenModel,
    entry: Option<Seq<char>>,
)
    requires
        check_program(builtin_env(), p) is Ok,
        forall|k: int|
            0 <= k < p.word_defs.len() ==> body_pushes_no_quotation(
                (#[trigger] p.word_defs[k]).body,
            ),
        entry is Some ==> known(p, entry->0),
    ensures
        !unknown_word(compile(p, g, entry)),
{
    lemma_builtins_known(p);
    lemma_add_types_keeps_words(builtin_env(), p.type_defs, 0);
    let env = add_types(builtin_env(), p.type_defs, 0);
    lemma_checked_words(env, p, 0);
    let header = debug_header(
        declare(emit(g, module_header())),
        collect_files(p.word_defs, Seq::empty(), 0),
    );
    if header is Ok {
        lemma_lowered_words(p, header->Ok_0, 0);
    }
}

} // verus!
