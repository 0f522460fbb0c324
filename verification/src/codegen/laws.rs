//! Laws of the generator: what holds of the text of every program.

use vstd::prelude::*;
use crate::ast::{
    BranchModel, ExprModel, LocModel, ProgramModel, TypeDefModel, VariantModel, WordModel,
    find_variant, match_branches,
};
use crate::codegen::layout::{fields_ptr_line, next_ptr_line, tag_ptr_line};
use crate::codegen::lines::{
    case_label, default_label, jump_line, label_line, load_line, location_line, main_text,
    match_merge_label, merge_label, module_flags_text, placeholder_file_line, push_int_line,
    ret_line, store_line, string_global_line, string_global_name, subprogram_line,
    subroutine_type_line, switch_case_line, switch_head, tail_call_line, unit_line,
    unit_list_line, word_header,
};
use crate::codegen::model::{
    GenModel, IncomingModel, LoweredModel, SubprogramModel, annotate, arrivals, branch_for,
    collect_files, compile, debug_footer, debug_header, declare, emit, emit_cases,
    emit_locations, emit_subprograms, emit_types, end_function, enter, find_file, find_type,
    fresh, hoist, if_else, if_start, leave_branch, lower_branch, lower_cases, lower_expr,
    lower_from, lower_int, lower_match, lower_word, lower_words, match_start, merge,
    module_header, push_fields, quotation_end, quotation_start, resolve_callee, suspend,
    take_temp, temp_name, trap_text, unmatched_case, variants_at, walk, with_main,
};
use crate::text::{escape_bytes, signed_decimal};

verus! {

/// Whether `text` holds `part` somewhere.
pub open spec fn contains(text: Seq<char>, part: Seq<char>) -> bool {
    exists|i: int| 0 <= i && i + part.len() <= text.len() && #[trigger] text.subrange(
        i,
        i + part.len(),
    ) == part
}

/// Whether the state `b` has all the text of the state `a`, at the same
/// places: both the module text and the hoisted definitions of `a` are the
/// beginnings of those of `b`.
pub open spec fn grows(a: GenModel, b: GenModel) -> bool {
    a.output.is_prefix_of(b.output) && a.hoisted.is_prefix_of(b.hoisted)
}

/// A text that holds a part still holds it when more text follows.
pub proof fn lemma_contains_prefix(a: Seq<char>, b: Seq<char>, part: Seq<char>)
    requires
        a.is_prefix_of(b),
        contains(a, part),
    ensures
        contains(b, part),
{
    let i = choose|i: int| 0 <= i && i + part.len() <= a.len() && #[trigger] a.subrange(
        i,
        i + part.len(),
    ) == part;
    assert(b.subrange(i, i + part.len()) =~= a.subrange(i, i + part.len()));
}

/// A text that holds a part still holds it when more text stands in front.
pub proof fn lemma_contains_suffix(a: Seq<char>, b: Seq<char>, part: Seq<char>)
    requires
        contains(b, part),
    ensures
        contains(a + b, part),
{
    let i = choose|i: int| 0 <= i && i + part.len() <= b.len() && #[trigger] b.subrange(
        i,
        i + part.len(),
    ) == part;
    assert((a + b).subrange(a.len() + i, a.len() + i + part.len()) =~= b.subrange(
        i,
        i + part.len(),
    ));
}

/// A text holds each of the three parts that it is made of.
pub proof fn lemma_contains_middle(pre: Seq<char>, part: Seq<char>, post: Seq<char>)
    ensures
        contains(pre + part + post, part),
{
    assert((pre + part + post).subrange(pre.len() as int, (pre.len() + part.len()) as int)
        =~= part);
}

/// Growth goes on: what has grown from `a` to `b` and from `b` to `c` has
/// grown from `a` to `c`.
pub proof fn lemma_grows_trans(a: GenModel, b: GenModel, c: GenModel)
    requires
        grows(a, b),
        grows(b, c),
    ensures
        grows(a, c),
{
    assert(a.output =~= c.output.subrange(0, a.output.len() as int));
    assert(a.hoisted =~= c.hoisted.subrange(0, a.hoisted.len() as int));
}

/// Writing text lets the state grow.
pub proof fn lemma_emit_grows(g: GenModel, text: Seq<char>)
    ensures
        grows(g, emit(g, text)),
        grows(g, hoist(g, text)),
        grows(g, take_temp(g)),
{
    assert(g.output =~= (g.output + text).subrange(0, g.output.len() as int));
    assert(g.hoisted =~= (g.hoisted + text).subrange(0, g.hoisted.len() as int));
    assert(g.output =~= g.output.subrange(0, g.output.len() as int));
    assert(g.hoisted =~= g.hoisted.subrange(0, g.hoisted.len() as int));
}

/// A state has grown from itself.
pub proof fn lemma_grows_refl(g: GenModel, h: GenModel)
    requires
        g.output == h.output,
        g.hoisted == h.hoisted,
    ensures
        grows(g, h),
{
    assert(g.output =~= h.output.subrange(0, g.output.len() as int));
    assert(g.hoisted =~= h.hoisted.subrange(0, g.hoisted.len() as int));
}

/// Annotating an instruction writes no text.
pub proof fn lemma_annotate_keeps(g: GenModel, loc: LocModel)
    ensures
        annotate(g, loc).0.output == g.output,
        annotate(g, loc).0.hoisted == g.hoisted,
        annotate(g, loc).0.temp == g.temp,
{
}

/// A state has grown when its module text is that of another state with
/// more text behind it, and its hoisted definitions have the others as
/// their beginning.
pub proof fn lemma_grows_by(g: GenModel, h: GenModel, text: Seq<char>)
    requires
        h.output == g.output + text,
        g.hoisted.is_prefix_of(h.hoisted),
    ensures
        grows(g, h),
{
    assert(g.output =~= h.output.subrange(0, g.output.len() as int));
}

/// Following a chain of cells lets the state grow.
pub proof fn lemma_walk_grows(g: GenModel, cell: Seq<char>, steps: int)
    ensures
        grows(g, walk(g, cell, steps).0),
    decreases steps,
{
    if steps <= 0 {
        lemma_grows_refl(g, g);
    } else {
        let np = temp_name(g);
        let g1 = emit(take_temp(g), next_ptr_line(np, cell));
        let c = temp_name(g1);
        let g2 = emit(take_temp(g1), load_line(c, "ptr"@, np));
        lemma_emit_grows(take_temp(g), next_ptr_line(np, cell));
        lemma_emit_grows(take_temp(g1), load_line(c, "ptr"@, np));
        lemma_grows_refl(g, take_temp(g));
        lemma_grows_refl(g1, take_temp(g1));
        lemma_grows_trans(g, take_temp(g), g1);
        lemma_grows_trans(g1, take_temp(g1), g2);
        lemma_grows_trans(g, g1, g2);
        lemma_walk_grows(g2, c, steps - 1);
        lemma_grows_trans(g, g2, walk(g2, c, steps - 1).0);
    }
}

/// Pushing the fields of a variant lets the state grow.
pub proof fn lemma_push_fields_grows(g: GenModel, n: int, fields: Seq<char>, rest: Seq<char>)
    requires
        push_fields(g, n, fields, rest) is Ok,
    ensures
        grows(g, push_fields(g, n, fields, rest)->Ok_0.0),
{
    if n <= 0 {
        lemma_grows_refl(g, g);
    } else {
        let (g1, bottom) = walk(g, fields, n - 1);
        lemma_walk_grows(g, fields, n - 1);
        let bp = temp_name(g1);
        let g2 = emit(take_temp(g1), next_ptr_line(bp, bottom));
        let g3 = emit(g2, store_line(rest, bp));
        lemma_grows_refl(g1, take_temp(g1));
        lemma_emit_grows(take_temp(g1), next_ptr_line(bp, bottom));
        lemma_emit_grows(g2, store_line(rest, bp));
        lemma_grows_trans(g1, take_temp(g1), g2);
        lemma_grows_trans(g1, g2, g3);
        lemma_grows_trans(g, g1, g3);
    }
}

/// The text of the cases of a multi-way branch, one line for each variant
/// from position `i` on, in the order of declaration.
pub open spec fn cases_text(id: int, count: int, i: int) -> Seq<char>
    decreases count - i,
{
    if i < 0 || i >= count {
        Seq::empty()
    } else {
        switch_case_line(i, case_label(id + 1 + i)) + cases_text(id, count, i + 1)
    }
}

/// The text of a multi-way branch on `tag` over `count` variants: its head
/// with the one default block, one case for each variant, and its end.
pub open spec fn switch_text(tag: Seq<char>, id: int, count: int) -> Seq<char> {
    switch_head(tag, default_label(id)) + cases_text(id, count, 0) + "  ]\n"@
}

/// Writing the cases of a multi-way branch adds their text to the module
/// text and changes nothing else of the text.
pub proof fn lemma_emit_cases_text(g: GenModel, id: int, count: int, i: int)
    requires
        0 <= i,
    ensures
        emit_cases(g, id, count, i).output == g.output + cases_text(id, count, i),
        emit_cases(g, id, count, i).hoisted == g.hoisted,
        emit_cases(g, id, count, i).temp == g.temp,
    decreases count - i,
{
    if i < count {
        let line = switch_case_line(i, case_label(id + 1 + i));
        lemma_emit_cases_text(emit(g, line), id, count, i + 1);
        assert(g.output + line + cases_text(id, count, i + 1) =~= g.output + (line + cases_text(
            id,
            count,
            i + 1,
        )));
    } else {
        assert(g.output + Seq::<char>::empty() =~= g.output);
    }
}

/// The start of a conditional lets the state grow.
pub proof fn lemma_if_start_grows(g: GenModel, stack: Seq<char>)
    ensures
        grows(g, if_start(g, stack).0),
{
    reveal(if_start);
    let r = if_start(g, stack).0;
    assert(g.hoisted == r.hoisted);
    assert(g.output =~= r.output.subrange(0, g.output.len() as int));
}

/// The start of a pattern match writes the multi-way branch: the module
/// text afterwards is the text before, some instructions, and the text of
/// the multi-way branch on some tag.
pub proof fn lemma_match_start_text(g: GenModel, count: int, stack: Seq<char>) -> (r: (
    Seq<char>,
    Seq<char>,
))
    ensures
        match_start(g, count, stack).state.output == g.output + r.0 + switch_text(
            r.1,
            g.temp,
            count,
        ),
        match_start(g, count, stack).state.hoisted == g.hoisted,
{
    reveal(match_start);
    let id = g.temp;
    let g0 = GenModel { temp: g.temp + 1 + count, ..g };
    let tp = temp_name(g0);
    let l1 = tag_ptr_line(tp, stack);
    let g1 = emit(take_temp(g0), l1);
    let tag = temp_name(g1);
    let l2 = load_line(tag, "i32"@, tp);
    let g2 = emit(take_temp(g1), l2);
    let fp = temp_name(g2);
    let l3 = fields_ptr_line(fp, stack);
    let g3 = emit(take_temp(g2), l3);
    let fields = temp_name(g3);
    let l4 = load_line(fields, "ptr"@, fp);
    let g4 = emit(take_temp(g3), l4);
    let rp = temp_name(g4);
    let l5 = next_ptr_line(rp, stack);
    let g5 = emit(take_temp(g4), l5);
    let rest = temp_name(g5);
    let l6 = load_line(rest, "ptr"@, rp);
    let g6 = emit(take_temp(g5), l6);
    let head = switch_head(tag, default_label(id));
    let g7 = emit(g6, head);
    lemma_emit_cases_text(g7, id, count, 0);
    let cases = cases_text(id, count, 0);
    let pre = l1 + l2 + l3 + l4 + l5 + l6;
    assert(g6.output =~= g.output + pre);
    let out = match_start(g, count, stack).state.output;
    assert(out == g7.output + cases + "  ]\n"@);
    assert(out =~= g.output + pre + (head + cases + "  ]\n"@));
    (pre, tag)
}

/// The start of a pattern match lets the state grow.
pub proof fn lemma_match_start_grows(g: GenModel, count: int, stack: Seq<char>)
    ensures
        grows(g, match_start(g, count, stack).state),
{
    let r = lemma_match_start_text(g, count, stack);
    let h = match_start(g, count, stack).state;
    assert(g.output =~= h.output.subrange(0, g.output.len() as int));
    assert(g.hoisted =~= h.hoisted.subrange(0, g.hoisted.len() as int));
}

/// Leaving a branch lets the state grow.
pub proof fn lemma_leave_grows(g: GenModel, l: LoweredModel, label: Seq<char>)
    ensures
        grows(g, leave_branch(g, l, label)),
        grows(g, end_function(g, l)),
{
    lemma_emit_grows(g, jump_line(label));
    lemma_emit_grows(g, ret_line(l.value));
    lemma_grows_refl(g, g);
}

/// Merging branches lets the state grow.
pub proof fn lemma_merge_grows(
    g: GenModel,
    label: Seq<char>,
    incoming: Seq<IncomingModel>,
    unused: Seq<char>,
)
    requires
        merge(g, label, incoming, unused) is Ok,
    ensures
        grows(g, merge(g, label, incoming, unused)->Ok_0.0),
{
    let h = merge(g, label, incoming, unused)->Ok_0.0;
    assert(g.hoisted =~= h.hoisted.subrange(0, g.hoisted.len() as int));
    assert(g.output =~= h.output.subrange(0, g.output.len() as int));
}

/// Lowering an expression lets the state grow: the text written before it
/// stays where it is.
pub proof fn lemma_expr_grows(
    p: ProgramModel,
    g: GenModel,
    e: ExprModel,
    stack: Seq<char>,
    tail: bool,
)
    requires
        lower_expr(p, g, e, stack, tail) is Ok,
    ensures
        grows(g, lower_expr(p, g, e, stack, tail)->Ok_0.0),
    decreases e, 1nat,
{
    let h = lower_expr(p, g, e, stack, tail)->Ok_0.0;
    match e {
        ExprModel::IntLit(n, loc) => {
            lemma_annotate_keeps(take_temp(g), loc);
            assert(g.output =~= h.output.subrange(0, g.output.len() as int));
            assert(g.hoisted =~= h.hoisted.subrange(0, g.hoisted.len() as int));
        },
        ExprModel::BoolLit(b, loc) => {
            lemma_annotate_keeps(take_temp(g), loc);
            assert(g.output =~= h.output.subrange(0, g.output.len() as int));
            assert(g.hoisted =~= h.hoisted.subrange(0, g.hoisted.len() as int));
        },
        ExprModel::StringLit(s, loc) => {
            let g1 = hoist(
                GenModel { strings: g.strings + 1, ..g },
                string_global_line(
                    string_global_name(g.strings),
                    vstd::utf8::encode_utf8(s).len() as int + 1,
                    escape_bytes(vstd::utf8::encode_utf8(s)),
                ),
            );
            lemma_annotate_keeps(take_temp(take_temp(g1)), loc);
            assert(g.output =~= h.output.subrange(0, g.output.len() as int));
            assert(g.hoisted =~= h.hoisted.subrange(0, g.hoisted.len() as int));
        },
        ExprModel::WordCall(name, loc) => {
            lemma_annotate_keeps(take_temp(g), loc);
            assert(g.output =~= h.output.subrange(0, g.output.len() as int));
            assert(g.hoisted =~= h.hoisted.subrange(0, g.hoisted.len() as int));
        },
        ExprModel::Quotation(body, loc) => {
            let inner = quotation_start(g);
            lemma_from_grows(p, inner, body, "stack"@, true, 0);
            let (g1, l) = lower_from(p, inner, body, "stack"@, true, 0)->Ok_0;
            lemma_quotation_end_grows(g, g1, l, stack);
        },
        ExprModel::Match { branches, loc } => {
            lemma_match_grows(p, g, e, stack, tail);
        },
        ExprModel::If { then_branch, else_branch, loc } => {
            let (g1, rest) = if_start(g, stack);
            lemma_if_start_grows(g, stack);
            lemma_branch_grows(p, g1, *then_branch, rest, tail);
            let (g2, t) = lower_branch(p, g1, *then_branch, rest, tail)->Ok_0;
            let g3 = if_else(g2, t, g.temp);
            lemma_if_else_grows(g2, t, g.temp);
            lemma_branch_grows(p, g3, *else_branch, rest, tail);
            let (g4, f) = lower_branch(p, g3, *else_branch, rest, tail)->Ok_0;
            let g5 = leave_branch(g4, f, merge_label(g.temp));
            lemma_leave_grows(g4, f, merge_label(g.temp));
            lemma_merge_grows(
                g5,
                merge_label(g.temp),
                arrivals(arrivals(Seq::empty(), g2, t), g4, f),
                t.value,
            );
            lemma_grows_trans(g, g1, g2);
            lemma_grows_trans(g, g2, g3);
            lemma_grows_trans(g, g3, g4);
            lemma_grows_trans(g, g4, g5);
            lemma_grows_trans(g, g5, h);
        },
        ExprModel::While { condition, body, loc } => {},
    }
}

/// The end of a quotation lets the state grow beyond the state before the
/// quotation, and its hoisted definitions hold all the text of the
/// quotation's function.
pub proof fn lemma_quotation_end_grows(
    g: GenModel,
    inner: GenModel,
    l: LoweredModel,
    stack: Seq<char>,
)
    requires
        g.hoisted.is_prefix_of(inner.hoisted),
    ensures
        grows(g, quotation_end(suspend(g), inner, l, stack).0),
        quotation_end(suspend(g), inner, l, stack).0.hoisted == inner.hoisted + emit(
            end_function(inner, l),
            "}\n\n"@,
        ).output,
{
    let h = quotation_end(suspend(g), inner, l, stack).0;
    let g2 = emit(end_function(inner, l), "}\n\n"@);
    assert(g2.hoisted == inner.hoisted);
    assert(h.hoisted == g2.hoisted + g2.output);
    assert(g.hoisted =~= h.hoisted.subrange(0, g.hoisted.len() as int));
    assert(g.output =~= h.output.subrange(0, g.output.len() as int));
}

/// The middle of a conditional lets the state grow.
pub proof fn lemma_if_else_grows(g: GenModel, t: LoweredModel, id: int)
    ensures
        grows(g, if_else(g, t, id)),
{
    let h = if_else(g, t, id);
    assert(g.output =~= h.output.subrange(0, g.output.len() as int));
    assert(g.hoisted =~= h.hoisted.subrange(0, g.hoisted.len() as int));
}

/// Lowering a body lets the state grow.
pub proof fn lemma_from_grows(
    p: ProgramModel,
    g: GenModel,
    body: Seq<ExprModel>,
    stack: Seq<char>,
    tail: bool,
    i: int,
)
    requires
        lower_from(p, g, body, stack, tail, i) is Ok,
    ensures
        grows(g, lower_from(p, g, body, stack, tail, i)->Ok_0.0),
    decreases body, body.len() - i,
{
    if i < 0 || i >= body.len() {
        lemma_grows_refl(g, g);
    } else {
        lemma_expr_grows(p, g, body[i], stack, tail && i == body.len() - 1);
        let (g1, l) = lower_expr(p, g, body[i], stack, tail && i == body.len() - 1)->Ok_0;
        if i != body.len() - 1 {
            lemma_from_grows(p, g1, body, l.value, tail, i + 1);
            lemma_grows_trans(g, g1, lower_from(p, g1, body, l.value, tail, i + 1)->Ok_0.0);
        }
    }
}

/// Lowering a branch lets the state grow.
pub proof fn lemma_branch_grows(
    p: ProgramModel,
    g: GenModel,
    branch: ExprModel,
    stack: Seq<char>,
    tail: bool,
)
    requires
        lower_branch(p, g, branch, stack, tail) is Ok,
    ensures
        grows(g, lower_branch(p, g, branch, stack, tail)->Ok_0.0),
    decreases branch, 0nat,
{
    match branch {
        ExprModel::Quotation(body, loc) => {
            lemma_from_grows(p, g, body, stack, tail, 0);
        },
        _ => {},
    }
}

/// Lowering a pattern match lets the state grow.
pub proof fn lemma_match_grows(
    p: ProgramModel,
    g: GenModel,
    e: ExprModel,
    stack: Seq<char>,
    tail: bool,
)
    requires
        lower_match(p, g, e, stack, tail) is Ok,
    ensures
        grows(g, lower_match(p, g, e, stack, tail)->Ok_0.0),
    decreases e, 0nat,
{
    let branches = match_branches(e);
    let t = find_type(p.type_defs, branches[0].variant, 0)->0;
    let variants = variants_at(p.type_defs, t);
    let id = g.temp;
    let head = match_start(g, variants.len() as int, stack);
    lemma_match_start_grows(g, variants.len() as int, stack);
    lemma_cases_grows(
        p,
        head.state,
        id,
        variants,
        branches,
        head.fields,
        head.rest,
        tail,
        Seq::empty(),
        0,
    );
    let (g8, incoming) = lower_cases(
        p,
        head.state,
        id,
        variants,
        branches,
        head.fields,
        head.rest,
        tail,
        Seq::empty(),
        0,
    )->Ok_0;
    let g9 = emit(
        emit(g8, label_line(default_label(id))),
        trap_text(),
    );
    lemma_emit_grows(g8, label_line(default_label(id)));
    lemma_emit_grows(
        emit(g8, label_line(default_label(id))),
        trap_text(),
    );
    lemma_grows_trans(g8, emit(g8, label_line(default_label(id))), g9);
    lemma_merge_grows(g9, match_merge_label(id), incoming, stack);
    let h = lower_match(p, g, e, stack, tail)->Ok_0.0;
    lemma_grows_trans(g, head.state, g8);
    lemma_grows_trans(g, g8, g9);
    lemma_grows_trans(g, g9, h);
}

/// Lowering the blocks of the variants lets the state grow.
pub proof fn lemma_cases_grows(
    p: ProgramModel,
    g: GenModel,
    id: int,
    variants: Seq<VariantModel>,
    branches: Seq<BranchModel>,
    fields: Seq<char>,
    rest: Seq<char>,
    tail: bool,
    incoming: Seq<IncomingModel>,
    i: int,
)
    requires
        lower_cases(p, g, id, variants, branches, fields, rest, tail, incoming, i) is Ok,
    ensures
        grows(
            g,
            lower_cases(p, g, id, variants, branches, fields, rest, tail, incoming, i)->Ok_0.0,
        ),
    decreases branches, variants.len() - i,
{
    if i < 0 || i >= variants.len() {
        lemma_grows_refl(g, g);
    } else {
        match branch_for(branches, variants[i].name, 0) {
            None => {
                let g1 = unmatched_case(g, id, i);
                assert(g1.output =~= g.output + (label_line(case_label(id + 1 + i)) + jump_line(
                    default_label(id),
                )));
                lemma_grows_refl(g, g);
                lemma_grows_by(
                    g,
                    g1,
                    label_line(case_label(id + 1 + i)) + jump_line(default_label(id)),
                );
                lemma_cases_grows(
                    p,
                    g1,
                    id,
                    variants,
                    branches,
                    fields,
                    rest,
                    tail,
                    incoming,
                    i + 1,
                );
                lemma_grows_trans(
                    g,
                    g1,
                    lower_cases(
                        p,
                        g1,
                        id,
                        variants,
                        branches,
                        fields,
                        rest,
                        tail,
                        incoming,
                        i + 1,
                    )->Ok_0.0,
                );
            },
            Some(j) => {
                if j < 0 || j >= branches.len() {
                    lemma_grows_refl(g, g);
                } else {
                    let label = case_label(id + 1 + i);
                    let g1 = enter(emit(g, label_line(label)), label);
                    lemma_emit_grows(g, label_line(label));
                    lemma_grows_refl(emit(g, label_line(label)), g1);
                    lemma_grows_trans(g, emit(g, label_line(label)), g1);
                    lemma_push_fields_grows(g1, variants[i].fields.len() as int, fields, rest);
                    let (g2, start) = push_fields(
                        g1,
                        variants[i].fields.len() as int,
                        fields,
                        rest,
                    )->Ok_0;
                    lemma_from_grows(p, g2, branches[j].body, start, tail, 0);
                    let (g3, l) = lower_from(p, g2, branches[j].body, start, tail, 0)->Ok_0;
                    let g4 = leave_branch(g3, l, match_merge_label(id));
                    lemma_leave_grows(g3, l, match_merge_label(id));
                    lemma_cases_grows(
                        p,
                        g4,
                        id,
                        variants,
                        branches,
                        fields,
                        rest,
                        tail,
                        arrivals(incoming, g3, l),
                        i + 1,
                    );
                    let h = lower_cases(
                        p,
                        g4,
                        id,
                        variants,
                        branches,
                        fields,
                        rest,
                        tail,
                        arrivals(incoming, g3, l),
                        i + 1,
                    )->Ok_0.0;
                    lemma_grows_trans(g, g1, g2);
                    lemma_grows_trans(g, g2, g3);
                    lemma_grows_trans(g, g3, g4);
                    lemma_grows_trans(g, g4, h);
                }
            },
        }
    }
}

/// Whether an expression holds a pattern match, at any depth.
pub open spec fn has_match(e: ExprModel) -> bool
    decreases e, 0nat,
{
    match e {
        ExprModel::Match { branches, loc } => true,
        ExprModel::Quotation(body, loc) => any_match(body, 0),
        ExprModel::If { then_branch, else_branch, loc } => has_match(*then_branch) || has_match(
            *else_branch,
        ),
        ExprModel::While { condition, body, loc } => has_match(*condition) || has_match(*body),
        _ => false,
    }
}

/// Whether one of the expressions from position `i` on holds a pattern
/// match.
pub open spec fn any_match(body: Seq<ExprModel>, i: int) -> bool
    decreases body, body.len() - i,
{
    if i < 0 || i >= body.len() {
        false
    } else {
        has_match(body[i]) || any_match(body, i + 1)
    }
}

/// The default block of the pattern match numbered `id`: it reports the
/// error to the runtime and never goes on.
pub open spec fn default_block_text(id: int) -> Seq<char> {
    label_line(default_label(id)) + trap_text()
}

/// Whether a text holds the lowering of a pattern match on a value of one
/// of the declared types of the program: a multi-way branch on a tag with
/// one default block and one case for each variant of the type, in the
/// order of declaration, and that default block.
pub open spec fn has_switch(p: ProgramModel, text: Seq<char>) -> bool {
    exists|t: int, tag: Seq<char>, id: int|
        0 <= t < p.type_defs.len() && contains(
            text,
            #[trigger] switch_text(tag, id, variants_at(p.type_defs, t).len() as int),
        ) && contains(text, default_block_text(id))
}

/// Whether the text of a state holds such a multi-way branch, in the
/// module text or in the hoisted definitions.
pub open spec fn state_has_switch(p: ProgramModel, g: GenModel) -> bool {
    has_switch(p, g.output) || has_switch(p, g.hoisted)
}

/// A text that holds a multi-way branch still holds it when more text
/// follows.
pub proof fn lemma_has_switch_prefix(p: ProgramModel, a: Seq<char>, b: Seq<char>)
    requires
        a.is_prefix_of(b),
        has_switch(p, a),
    ensures
        has_switch(p, b),
{
    let (t, tag, id) = choose|t: int, tag: Seq<char>, id: int|
        0 <= t < p.type_defs.len() && contains(
            a,
            #[trigger] switch_text(tag, id, variants_at(p.type_defs, t).len() as int),
        ) && contains(a, default_block_text(id));
    lemma_contains_prefix(a, b, switch_text(tag, id, variants_at(p.type_defs, t).len() as int));
    lemma_contains_prefix(a, b, default_block_text(id));
}

/// A text that holds a multi-way branch still holds it when more text
/// stands in front.
pub proof fn lemma_has_switch_suffix(p: ProgramModel, a: Seq<char>, b: Seq<char>)
    requires
        has_switch(p, b),
    ensures
        has_switch(p, a + b),
{
    let (t, tag, id) = choose|t: int, tag: Seq<char>, id: int|
        0 <= t < p.type_defs.len() && contains(
            b,
            #[trigger] switch_text(tag, id, variants_at(p.type_defs, t).len() as int),
        ) && contains(b, default_block_text(id));
    lemma_contains_suffix(a, b, switch_text(tag, id, variants_at(p.type_defs, t).len() as int));
    lemma_contains_suffix(a, b, default_block_text(id));
}

/// A state that holds a multi-way branch still holds it after it has
/// grown.
pub proof fn lemma_state_keeps_switch(p: ProgramModel, a: GenModel, b: GenModel)
    requires
        grows(a, b),
        state_has_switch(p, a),
    ensures
        state_has_switch(p, b),
{
    if has_switch(p, a.output) {
        lemma_has_switch_prefix(p, a.output, b.output);
    } else {
        lemma_has_switch_prefix(p, a.hoisted, b.hoisted);
    }
}

/// The type that `find_type` finds is one of the declared types.
pub proof fn lemma_find_type_range(
    types: Seq<TypeDefModel>,
    variant: Seq<char>,
    from: int,
)
    requires
        find_type(types, variant, from) is Some,
    ensures
        0 <= find_type(types, variant, from)->0 < types.len(),
    decreases types.len() - from,
{
    if 0 <= from < types.len() && !(find_variant(types[from].variants, variant, 0)
        is Some) {
        lemma_find_type_range(types, variant, from + 1);
    }
}

/// Lowering a pattern match writes a multi-way branch over the variants
/// of the matched type, and its default block.
pub proof fn lemma_match_has_switch(
    p: ProgramModel,
    g: GenModel,
    e: ExprModel,
    stack: Seq<char>,
    tail: bool,
)
    requires
        lower_match(p, g, e, stack, tail) is Ok,
    ensures
        has_switch(p, lower_match(p, g, e, stack, tail)->Ok_0.0.output),
{
    let branches = match_branches(e);
    let t = find_type(p.type_defs, branches[0].variant, 0)->0;
    lemma_find_type_range(p.type_defs, branches[0].variant, 0);
    let variants = variants_at(p.type_defs, t);
    let id = g.temp;
    let head = match_start(g, variants.len() as int, stack);
    let (pre, tag) = lemma_match_start_text(g, variants.len() as int, stack);
    let text = switch_text(tag, id, variants.len() as int);
    lemma_ends_with_last(g.output + pre, text);
    lemma_cases_grows(
        p,
        head.state,
        id,
        variants,
        branches,
        head.fields,
        head.rest,
        tail,
        Seq::empty(),
        0,
    );
    let (g8, incoming) = lower_cases(
        p,
        head.state,
        id,
        variants,
        branches,
        head.fields,
        head.rest,
        tail,
        Seq::empty(),
        0,
    )->Ok_0;
    let g9 = emit(emit(g8, label_line(default_label(id))), trap_text());
    assert(g9.output =~= g8.output + default_block_text(id));
    lemma_ends_with_last(g8.output, default_block_text(id));
    lemma_grows_by(g8, g9, default_block_text(id));
    lemma_merge_grows(g9, match_merge_label(id), incoming, stack);
    let h = lower_match(p, g, e, stack, tail)->Ok_0.0;
    lemma_grows_trans(head.state, g8, g9);
    lemma_grows_trans(head.state, g9, h);
    lemma_contains_prefix(head.state.output, h.output, text);
    lemma_contains_prefix(g9.output, h.output, default_block_text(id));
}

/// Lowering an expression that holds a pattern match writes a multi-way
/// branch.
pub proof fn lemma_expr_has_switch(
    p: ProgramModel,
    g: GenModel,
    e: ExprModel,
    stack: Seq<char>,
    tail: bool,
)
    requires
        lower_expr(p, g, e, stack, tail) is Ok,
        has_match(e),
    ensures
        state_has_switch(p, lower_expr(p, g, e, stack, tail)->Ok_0.0),
    decreases e, 1nat,
{
    let h = lower_expr(p, g, e, stack, tail)->Ok_0.0;
    match e {
        ExprModel::Match { branches, loc } => {
            lemma_match_has_switch(p, g, e, stack, tail);
        },
        ExprModel::Quotation(body, loc) => {
            let inner = quotation_start(g);
            lemma_from_has_switch(p, inner, body, "stack"@, true, 0);
            lemma_from_grows(p, inner, body, "stack"@, true, 0);
            let (g1, l) = lower_from(p, inner, body, "stack"@, true, 0)->Ok_0;
            lemma_quotation_end_grows(g, g1, l, stack);
            let closed = emit(end_function(g1, l), "}\n\n"@);
            if has_switch(p, g1.hoisted) {
                assert(g1.hoisted =~= (g1.hoisted + closed.output).subrange(
                    0,
                    g1.hoisted.len() as int,
                ));
                lemma_has_switch_prefix(p, g1.hoisted, h.hoisted);
            } else {
                lemma_leave_grows(g1, l, Seq::empty());
                lemma_emit_grows(end_function(g1, l), "}\n\n"@);
                lemma_grows_trans(g1, end_function(g1, l), closed);
                lemma_has_switch_prefix(p, g1.output, closed.output);
                lemma_has_switch_suffix(p, g1.hoisted, closed.output);
            }
        },
        ExprModel::If { then_branch, else_branch, loc } => {
            let (g1, rest) = if_start(g, stack);
            let (g2, t) = lower_branch(p, g1, *then_branch, rest, tail)->Ok_0;
            let g3 = if_else(g2, t, g.temp);
            lemma_if_else_grows(g2, t, g.temp);
            lemma_branch_grows(p, g3, *else_branch, rest, tail);
            let (g4, f) = lower_branch(p, g3, *else_branch, rest, tail)->Ok_0;
            let g5 = leave_branch(g4, f, merge_label(g.temp));
            lemma_leave_grows(g4, f, merge_label(g.temp));
            lemma_merge_grows(
                g5,
                merge_label(g.temp),
                arrivals(arrivals(Seq::empty(), g2, t), g4, f),
                t.value,
            );
            lemma_grows_trans(g4, g5, h);
            if has_match(*then_branch) {
                lemma_branch_has_switch(p, g1, *then_branch, rest, tail);
                lemma_grows_trans(g2, g3, g4);
                lemma_grows_trans(g2, g4, h);
                lemma_state_keeps_switch(p, g2, h);
            } else {
                lemma_branch_has_switch(p, g3, *else_branch, rest, tail);
                lemma_state_keeps_switch(p, g4, h);
            }
        },
        _ => {},
    }
}

/// Lowering a body of which an expression holds a pattern match writes a
/// multi-way branch.
pub proof fn lemma_from_has_switch(
    p: ProgramModel,
    g: GenModel,
    body: Seq<ExprModel>,
    stack: Seq<char>,
    tail: bool,
    i: int,
)
    requires
        lower_from(p, g, body, stack, tail, i) is Ok,
        any_match(body, i),
    ensures
        state_has_switch(p, lower_from(p, g, body, stack, tail, i)->Ok_0.0),
    decreases body, body.len() - i,
{
    let last = tail && i == body.len() - 1;
    let (g1, l) = lower_expr(p, g, body[i], stack, last)->Ok_0;
    if has_match(body[i]) {
        lemma_expr_has_switch(p, g, body[i], stack, last);
        if i != body.len() - 1 {
            lemma_from_grows(p, g1, body, l.value, tail, i + 1);
            lemma_state_keeps_switch(
                p,
                g1,
                lower_from(p, g1, body, l.value, tail, i + 1)->Ok_0.0,
            );
        }
    } else {
        lemma_from_has_switch(p, g1, body, l.value, tail, i + 1);
    }
}

/// Lowering a branch that holds a pattern match writes a multi-way branch.
pub proof fn lemma_branch_has_switch(
    p: ProgramModel,
    g: GenModel,
    branch: ExprModel,
    stack: Seq<char>,
    tail: bool,
)
    requires
        lower_branch(p, g, branch, stack, tail) is Ok,
        has_match(branch),
    ensures
        state_has_switch(p, lower_branch(p, g, branch, stack, tail)->Ok_0.0),
    decreases branch, 0nat,
{
    match branch {
        ExprModel::Quotation(body, loc) => {
            lemma_from_has_switch(p, g, body, stack, tail, 0);
        },
        _ => {},
    }
}

/// Compiling a word lets the state grow.
pub proof fn lemma_word_grows(p: ProgramModel, g: GenModel, w: WordModel)
    requires
        lower_word(p, g, w) is Ok,
    ensures
        grows(g, lower_word(p, g, w)->Ok_0),
{
    let id = g.meta;
    let file_id = match find_file(g.files, w.loc.file, 0) {
        Some(f) => f,
        None => 0,
    };
    let g1 = GenModel {
        temp: 0,
        block: "entry"@,
        meta: g.meta + 1,
        subprograms: g.subprograms.push(
            SubprogramModel {
                name: w.name,
                file_id,
                line: w.loc.line as int,
                id,
            },
        ),
        scope: Some(id),
        ..g
    };
    let g2 = emit(g1, word_header(w.name, id));
    lemma_grows_refl(g, g1);
    lemma_emit_grows(g1, word_header(w.name, id));
    lemma_from_grows(p, g2, w.body, "stack"@, true, 0);
    let (g3, l) = lower_from(p, g2, w.body, "stack"@, true, 0)->Ok_0;
    lemma_leave_grows(g3, l, Seq::empty());
    lemma_emit_grows(end_function(g3, l), "}\n\n"@);
    let g4 = emit(end_function(g3, l), "}\n\n"@);
    let h = lower_word(p, g, w)->Ok_0;
    lemma_grows_refl(g4, h);
    lemma_grows_trans(g, g1, g2);
    lemma_grows_trans(g, g2, g3);
    lemma_grows_trans(g, g3, end_function(g3, l));
    lemma_grows_trans(g, end_function(g3, l), g4);
    lemma_grows_trans(g, g4, h);
}

/// Compiling a word whose body holds a pattern match writes a multi-way
/// branch.
pub proof fn lemma_word_has_switch(p: ProgramModel, g: GenModel, w: WordModel)
    requires
        lower_word(p, g, w) is Ok,
        any_match(w.body, 0),
    ensures
        state_has_switch(p, lower_word(p, g, w)->Ok_0),
{
    let id = g.meta;
    let file_id = match find_file(g.files, w.loc.file, 0) {
        Some(f) => f,
        None => 0,
    };
    let g1 = GenModel {
        temp: 0,
        block: "entry"@,
        meta: g.meta + 1,
        subprograms: g.subprograms.push(
            SubprogramModel {
                name: w.name,
                file_id,
                line: w.loc.line as int,
                id,
            },
        ),
        scope: Some(id),
        ..g
    };
    let g2 = emit(g1, word_header(w.name, id));
    lemma_from_has_switch(p, g2, w.body, "stack"@, true, 0);
    let (g3, l) = lower_from(p, g2, w.body, "stack"@, true, 0)->Ok_0;
    lemma_leave_grows(g3, l, Seq::empty());
    lemma_emit_grows(end_function(g3, l), "}\n\n"@);
    let g4 = emit(end_function(g3, l), "}\n\n"@);
    let h = lower_word(p, g, w)->Ok_0;
    lemma_grows_refl(g4, h);
    lemma_grows_trans(g3, end_function(g3, l), g4);
    lemma_grows_trans(g3, g4, h);
    lemma_state_keeps_switch(p, g3, h);
}

/// The state in which the word at position `k` is compiled, when the words
/// are compiled in order from position `i` on, starting in the state `g`.
pub open spec fn state_before_word(p: ProgramModel, g: GenModel, i: int, k: int) -> GenModel
    decreases k - i,
{
    if i >= k || i < 0 || i >= p.word_defs.len() {
        g
    } else {
        match lower_word(p, g, p.word_defs[i]) {
            Err(err) => g,
            Ok(next) => state_before_word(p, next, i + 1, k),
        }
    }
}

/// Where the words of a program are compiled with success, each word is
/// compiled with success in the state that the words before it left, and
/// what it wrote stays in the text.
pub proof fn lemma_words_reach(p: ProgramModel, g: GenModel, i: int, k: int)
    requires
        0 <= i <= k < p.word_defs.len(),
        lower_words(p, g, i) is Ok,
    ensures
        lower_word(p, state_before_word(p, g, i, k), p.word_defs[k]) is Ok,
        grows(
            lower_word(p, state_before_word(p, g, i, k), p.word_defs[k])->Ok_0,
            lower_words(p, g, i)->Ok_0,
        ),
    decreases k - i,
{
    let g1 = lower_word(p, g, p.word_defs[i])->Ok_0;
    if i < k {
        lemma_words_reach(p, g1, i + 1, k);
    } else {
        lemma_words_grow(p, g1, i + 1);
    }
}

/// Compiling the words of a program lets the state grow.
pub proof fn lemma_words_grow(p: ProgramModel, g: GenModel, i: int)
    requires
        0 <= i,
        lower_words(p, g, i) is Ok,
    ensures
        grows(g, lower_words(p, g, i)->Ok_0),
    decreases p.word_defs.len() - i,
{
    if i >= p.word_defs.len() {
        lemma_grows_refl(g, g);
    } else {
        let g1 = lower_word(p, g, p.word_defs[i])->Ok_0;
        lemma_word_grows(p, g, p.word_defs[i]);
        lemma_words_grow(p, g1, i + 1);
        lemma_grows_trans(g, g1, lower_words(p, g1, i + 1)->Ok_0);
    }
}

/// What is written after the words of a program lets the state grow.
pub proof fn lemma_ending_grows(p: ProgramModel, g: GenModel, entry: Option<Seq<char>>)
    requires
        with_main(p, g, entry) is Ok,
        debug_footer(with_main(p, g, entry)->Ok_0) is Ok,
    ensures
        grows(g, debug_footer(with_main(p, g, entry)->Ok_0)->Ok_0),
{
    let g3 = with_main(p, g, entry)->Ok_0;
    match entry {
        None => {
            lemma_grows_refl(g, g3);
        },
        Some(name) => {
            lemma_emit_grows(g, main_text(resolve_callee(p, name)->0));
        },
    }
    lemma_footer_grows(g3);
    lemma_grows_trans(g, g3, debug_footer(g3)->Ok_0);
}

/// The state in which the first word of a program is compiled.
pub open spec fn state_before_words(p: ProgramModel, g: GenModel) -> GenModel {
    match debug_header(
        declare(emit(g, module_header())),
        collect_files(p.word_defs, Seq::empty(), 0),
    ) {
        Ok(g1) => g1,
        Err(err) => g,
    }
}

/// Writing the records of the subprograms lets the state grow.
pub proof fn lemma_subprograms_grow(g: GenModel, types: int, unit: int, i: int)
    ensures
        grows(g, emit_subprograms(g, types, unit, i)),
        emit_subprograms(g, types, unit, i).meta == g.meta,
        emit_subprograms(g, types, unit, i).locations == g.locations,
    decreases g.subprograms.len() - i,
{
    if i < 0 || i >= g.subprograms.len() {
        lemma_grows_refl(g, g);
    } else {
        let s = g.subprograms[i];
        let g1 = emit(
            g,
            subprogram_line(s.id, s.name, s.file_id, s.line, types + i, unit),
        );
        lemma_emit_grows(
            g,
            subprogram_line(s.id, s.name, s.file_id, s.line, types + i, unit),
        );
        lemma_subprograms_grow(g1, types, unit, i + 1);
        lemma_grows_trans(g, g1, emit_subprograms(g1, types, unit, i + 1));
    }
}

/// Writing the stub type records lets the state grow.
pub proof fn lemma_types_grow(g: GenModel, types: int, count: int, i: int)
    ensures
        grows(g, emit_types(g, types, count, i)),
        emit_types(g, types, count, i).meta == g.meta,
        emit_types(g, types, count, i).locations == g.locations,
    decreases count - i,
{
    if i < 0 || i >= count {
        lemma_grows_refl(g, g);
    } else {
        let g1 = emit(g, subroutine_type_line(types + i));
        lemma_emit_grows(g, subroutine_type_line(types + i));
        lemma_types_grow(g1, types, count, i + 1);
        lemma_grows_trans(g, g1, emit_types(g1, types, count, i + 1));
    }
}

/// Writing the location records lets the state grow.
pub proof fn lemma_locations_grow(g: GenModel, i: int)
    ensures
        grows(g, emit_locations(g, i)),
        emit_locations(g, i).meta == g.meta,
    decreases g.locations.len() - i,
{
    if i < 0 || i >= g.locations.len() {
        lemma_grows_refl(g, g);
    } else {
        let l = g.locations[i];
        let g1 = emit(g, location_line(l.id, l.line, l.column, l.scope));
        lemma_emit_grows(g, location_line(l.id, l.line, l.column, l.scope));
        lemma_locations_grow(g1, i + 1);
        lemma_grows_trans(g, g1, emit_locations(g1, i + 1));
    }
}

/// Writing the last part of the debug information lets the state grow.
pub proof fn lemma_footer_grows(g: GenModel)
    requires
        debug_footer(g) is Ok,
    ensures
        grows(g, debug_footer(g)->Ok_0),
{
    let unit = g.meta;
    let g0 = emit(g, "; Debug Info Compile Unit\n"@);
    let g1 = GenModel { meta: g.meta + 1, unit: Some(unit), ..g0 };
    lemma_emit_grows(g, "; Debug Info Compile Unit\n"@);
    lemma_grows_refl(g0, g1);
    lemma_grows_trans(g, g0, g1);
    let (g2, file) = if g1.files.len() == 0 {
        (
            GenModel {
                meta: g1.meta + 1,
                ..emit(g1, placeholder_file_line(g1.meta))
            },
            g1.meta,
        )
    } else {
        (g1, g1.files[0].id)
    };
    if g1.files.len() == 0 {
        let e1 = emit(g1, placeholder_file_line(g1.meta));
        lemma_emit_grows(g1, placeholder_file_line(g1.meta));
        lemma_grows_refl(e1, g2);
        lemma_grows_trans(g1, e1, g2);
    } else {
        lemma_grows_refl(g1, g2);
    }
    lemma_grows_trans(g, g1, g2);
    let g3a = emit(g2, unit_line(unit, file));
    let g3 = emit(g3a, "\n; DISubprogram metadata for each word\n"@);
    lemma_emit_grows(g2, unit_line(unit, file));
    lemma_emit_grows(g3a, "\n; DISubprogram metadata for each word\n"@);
    lemma_grows_trans(g, g2, g3a);
    lemma_grows_trans(g, g3a, g3);
    let types = g3.meta;
    let count = g3.subprograms.len() as int;
    let g3b = GenModel { meta: g3.meta + count, ..g3 };
    lemma_grows_refl(g3, g3b);
    let g4 = emit_subprograms(g3b, types, unit, 0);
    lemma_subprograms_grow(g3b, types, unit, 0);
    lemma_grows_trans(g, g3, g3b);
    lemma_grows_trans(g, g3b, g4);
    let g4a = emit(g4, "\n; Type metadata (stubs)\n"@);
    lemma_emit_grows(g4, "\n; Type metadata (stubs)\n"@);
    let g5 = emit_types(g4a, types, count, 0);
    lemma_types_grow(g4a, types, count, 0);
    lemma_grows_trans(g, g4, g4a);
    lemma_grows_trans(g, g4a, g5);
    let g6 = if g5.locations.len() == 0 {
        g5
    } else {
        emit_locations(emit(g5, "\n; DILocation metadata\n"@), 0)
    };
    if g5.locations.len() == 0 {
        lemma_grows_refl(g5, g6);
    } else {
        lemma_emit_grows(g5, "\n; DILocation metadata\n"@);
        lemma_locations_grow(emit(g5, "\n; DILocation metadata\n"@), 0);
        lemma_grows_trans(g5, emit(g5, "\n; DILocation metadata\n"@), g6);
    }
    lemma_grows_trans(g, g5, g6);
    let g7a = emit(g6, "\n"@);
    let g7 = emit(g7a, unit_list_line(unit));
    lemma_emit_grows(g6, "\n"@);
    lemma_emit_grows(g7a, unit_list_line(unit));
    lemma_grows_trans(g, g6, g7a);
    lemma_grows_trans(g, g7a, g7);
    let flags = g7.meta;
    let g8a = GenModel { meta: g7.meta + 1, ..g7 };
    let g8b = emit(g8a, module_flags_text(flags));
    let g8 = emit(g8b, "\n"@);
    lemma_grows_refl(g7, g8a);
    lemma_emit_grows(g8a, module_flags_text(flags));
    lemma_emit_grows(g8b, "\n"@);
    lemma_grows_trans(g, g7, g8a);
    lemma_grows_trans(g, g8a, g8b);
    lemma_grows_trans(g, g8b, g8);
}

/// Pattern-match lowering shape: where a program is compiled with
/// success and the body of one of its words holds a pattern match, the
/// text holds a multi-way branch on a tag, with one case for each variant
/// of a declared type, in the order of declaration, and exactly one
/// default block, which reports the error to the runtime.
pub proof fn pattern_match_shape(p: ProgramModel, g: GenModel, entry: Option<Seq<char>>, k: int)
    requires
        compile(p, g, entry) is Ok,
        0 <= k < p.word_defs.len(),
        any_match(p.word_defs[k].body, 0),
    ensures
        has_switch(p, compile(p, g, entry)->Ok_0.1),
{
    let g1 = state_before_words(p, g);
    let g2 = lower_words(p, g1, 0)->Ok_0;
    lemma_words_reach(p, g1, 0, k);
    let gk = state_before_word(p, g1, 0, k);
    lemma_word_has_switch(p, gk, p.word_defs[k]);
    lemma_state_keeps_switch(p, lower_word(p, gk, p.word_defs[k])->Ok_0, g2);
    let g4 = compile(p, g, entry)->Ok_0.0;
    lemma_ending_grows(p, g2, entry);
    lemma_state_keeps_switch(p, g2, g4);
    if has_switch(p, g4.hoisted) {
        assert(g4.hoisted =~= (g4.hoisted + g4.output).subrange(0, g4.hoisted.len() as int));
        lemma_has_switch_prefix(p, g4.hoisted, g4.hoisted + g4.output);
    } else {
        lemma_has_switch_suffix(p, g4.hoisted, g4.output);
    }
}

/// Whether `text` ends with `part`.
pub open spec fn ends_with(text: Seq<char>, part: Seq<char>) -> bool {
    part.len() <= text.len() && text.subrange(text.len() - part.len(), text.len() as int) == part
}

/// The text of a tail call: the call of `callee` on `stack` as a tail call,
/// and the return of the stack `r` that the call hands back.
pub open spec fn tail_call_text(
    r: Seq<char>,
    callee: Seq<char>,
    stack: Seq<char>,
    dbg: Seq<char>,
) -> Seq<char> {
    tail_call_line(r, callee, stack, dbg) + ret_line(r)
}

/// Whether a text ends with a tail call of `callee`.
pub open spec fn ends_in_tail_call(text: Seq<char>, callee: Seq<char>) -> bool {
    exists|r: Seq<char>, stack: Seq<char>, dbg: Seq<char>|
        ends_with(text, #[trigger] tail_call_text(r, callee, stack, dbg))
}

/// Whether a text holds a tail call of `callee`.
pub open spec fn holds_tail_call(text: Seq<char>, callee: Seq<char>) -> bool {
    exists|r: Seq<char>, stack: Seq<char>, dbg: Seq<char>|
        contains(text, #[trigger] tail_call_text(r, callee, stack, dbg))
}

/// Whether a text ends with a tail call of `callee` and the end of the
/// function that makes it.
pub open spec fn function_ends_in_tail_call(text: Seq<char>, callee: Seq<char>) -> bool {
    exists|r: Seq<char>, stack: Seq<char>, dbg: Seq<char>|
        ends_with(text, #[trigger] tail_call_text(r, callee, stack, dbg) + "}\n\n"@)
}

/// A text ends with what was written last.
pub proof fn lemma_ends_with_last(pre: Seq<char>, part: Seq<char>)
    ensures
        ends_with(pre + part, part),
        contains(pre + part, part),
{
    assert((pre + part).subrange((pre + part).len() - part.len(), (pre + part).len() as int)
        =~= part);
    assert((pre + part).subrange(pre.len() as int, (pre.len() + part.len()) as int) =~= part);
}

/// The state and the stack from which the last expression of a body is
/// lowered, when the body is lowered from position `i` on: the state and
/// the stack that the expressions before the last one leave.
pub open spec fn before_last(
    p: ProgramModel,
    g: GenModel,
    body: Seq<ExprModel>,
    stack: Seq<char>,
    i: int,
) -> (GenModel, Seq<char>)
    decreases body.len() - i,
{
    if i < 0 || i >= body.len() - 1 {
        (g, stack)
    } else {
        match lower_expr(p, g, body[i], stack, false) {
            Err(err) => (g, stack),
            Ok((g1, l)) => before_last(p, g1, body, l.value, i + 1),
        }
    }
}

/// The last expression of a body takes the position of the body: where a
/// body is lowered with success, what it leaves is what its last
/// expression leaves, lowered in tail position exactly if the body is, from
/// the state and the stack that the expressions before it leave.
pub proof fn last_expression_takes_position(
    p: ProgramModel,
    g: GenModel,
    body: Seq<ExprModel>,
    stack: Seq<char>,
    tail: bool,
    i: int,
)
    requires
        0 <= i < body.len(),
        lower_from(p, g, body, stack, tail, i) is Ok,
    ensures
        lower_from(p, g, body, stack, tail, i) == lower_expr(
            p,
            before_last(p, g, body, stack, i).0,
            body[body.len() - 1],
            before_last(p, g, body, stack, i).1,
            tail,
        ),
        grows(g, before_last(p, g, body, stack, i).0),
    decreases body.len() - i,
{
    if i < body.len() - 1 {
        let (g1, l) = lower_expr(p, g, body[i], stack, false)->Ok_0;
        lemma_expr_grows(p, g, body[i], stack, false);
        last_expression_takes_position(p, g1, body, l.value, tail, i + 1);
        lemma_grows_trans(g, g1, before_last(p, g1, body, l.value, i + 1).0);
    } else {
        lemma_grows_refl(g, g);
    }
}

/// Tail-call emission, for a call: a call of a word in tail position is
/// written as a tail call of the function that the call reaches, followed
/// by the return of what that function hands back, and nothing is written
/// behind it.
pub proof fn tail_call_emission(
    p: ProgramModel,
    g: GenModel,
    name: Seq<char>,
    loc: LocModel,
    stack: Seq<char>,
)
    requires
        lower_expr(p, g, ExprModel::WordCall(name, loc), stack, true) is Ok,
    ensures
        resolve_callee(p, name) is Some,
        lower_expr(p, g, ExprModel::WordCall(name, loc), stack, true)->Ok_0.1.terminated,
        lower_expr(p, g, ExprModel::WordCall(name, loc), stack, true)->Ok_0.0.output == g.output
            + tail_call_text(
            temp_name(g),
            resolve_callee(p, name)->0,
            stack,
            annotate(take_temp(g), loc).1,
        ),
        ends_in_tail_call(
            lower_expr(p, g, ExprModel::WordCall(name, loc), stack, true)->Ok_0.0.output,
            resolve_callee(p, name)->0,
        ),
{
    let callee = resolve_callee(p, name)->0;
    let r = temp_name(g);
    let dbg = annotate(take_temp(g), loc).1;
    lemma_annotate_keeps(take_temp(g), loc);
    let h = lower_expr(p, g, ExprModel::WordCall(name, loc), stack, true)->Ok_0.0;
    assert(h.output =~= g.output + tail_call_text(r, callee, stack, dbg));
    lemma_ends_with_last(g.output, tail_call_text(r, callee, stack, dbg));
}

/// Tail-call emission, for a body: a body in tail position whose last
/// expression is a call of a word ends with a tail call of the function
/// that the call reaches.
pub proof fn body_tail_call_emission(
    p: ProgramModel,
    g: GenModel,
    body: Seq<ExprModel>,
    stack: Seq<char>,
    name: Seq<char>,
    loc: LocModel,
)
    requires
        body.len() > 0,
        body[body.len() - 1] == ExprModel::WordCall(name, loc),
        lower_from(p, g, body, stack, true, 0) is Ok,
    ensures
        resolve_callee(p, name) is Some,
        lower_from(p, g, body, stack, true, 0)->Ok_0.1.terminated,
        ends_in_tail_call(
            lower_from(p, g, body, stack, true, 0)->Ok_0.0.output,
            resolve_callee(p, name)->0,
        ),
{
    last_expression_takes_position(p, g, body, stack, true, 0);
    let (g1, s1) = before_last(p, g, body, stack, 0);
    tail_call_emission(p, g1, name, loc, s1);
}

/// Tail-call emission, for a word: the function of a word whose last
/// expression is a call of a word ends with a tail call of the function
/// that the call reaches.
pub proof fn word_tail_call_emission(
    p: ProgramModel,
    g: GenModel,
    w: WordModel,
    name: Seq<char>,
    loc: LocModel,
)
    requires
        w.body.len() > 0,
        w.body[w.body.len() - 1] == ExprModel::WordCall(name, loc),
        lower_word(p, g, w) is Ok,
    ensures
        resolve_callee(p, name) is Some,
        function_ends_in_tail_call(lower_word(p, g, w)->Ok_0.output, resolve_callee(p, name)->0),
{
    let id = g.meta;
    let file_id = match find_file(g.files, w.loc.file, 0) {
        Some(f) => f,
        None => 0,
    };
    let g1 = GenModel {
        temp: 0,
        block: "entry"@,
        meta: g.meta + 1,
        subprograms: g.subprograms.push(
            SubprogramModel {
                name: w.name,
                file_id,
                line: w.loc.line as int,
                id,
            },
        ),
        scope: Some(id),
        ..g
    };
    let g2 = emit(g1, word_header(w.name, id));
    last_expression_takes_position(p, g2, w.body, "stack"@, true, 0);
    let (b, s1) = before_last(p, g2, w.body, "stack"@, 0);
    tail_call_emission(p, b, name, loc, s1);
    let callee = resolve_callee(p, name)->0;
    let text = tail_call_text(temp_name(b), callee, s1, annotate(take_temp(b), loc).1);
    let h = lower_word(p, g, w)->Ok_0;
    assert(h.output =~= b.output + (text + "}\n\n"@));
    lemma_ends_with_last(b.output, text + "}\n\n"@);
}

/// Tail-call emission, for a conditional: where both branches of a
/// conditional in tail position end with a call of a word, the text holds
/// a tail call for the first branch and ends with a tail call for the
/// second, and the conditional has no merge block: what it wrote ends by
/// returning.
pub proof fn conditional_tail_call_emission(
    p: ProgramModel,
    g: GenModel,
    then_body: Seq<ExprModel>,
    else_body: Seq<ExprModel>,
    l1: LocModel,
    l2: LocModel,
    loc: LocModel,
    stack: Seq<char>,
    n1: Seq<char>,
    c1: LocModel,
    n2: Seq<char>,
    c2: LocModel,
)
    requires
        then_body.len() > 0,
        then_body[then_body.len() - 1] == ExprModel::WordCall(n1, c1),
        else_body.len() > 0,
        else_body[else_body.len() - 1] == ExprModel::WordCall(n2, c2),
        lower_expr(
            p,
            g,
            ExprModel::If {
                then_branch: Box::new(ExprModel::Quotation(then_body, l1)),
                else_branch: Box::new(ExprModel::Quotation(else_body, l2)),
                loc,
            },
            stack,
            true,
        ) is Ok,
    ensures
        resolve_callee(p, n1) is Some,
        resolve_callee(p, n2) is Some,
        ({
            let r = lower_expr(
                p,
                g,
                ExprModel::If {
                    then_branch: Box::new(ExprModel::Quotation(then_body, l1)),
                    else_branch: Box::new(ExprModel::Quotation(else_body, l2)),
                    loc,
                },
                stack,
                true,
            )->Ok_0;
            &&& r.1.terminated
            &&& holds_tail_call(r.0.output, resolve_callee(p, n1)->0)
            &&& ends_in_tail_call(r.0.output, resolve_callee(p, n2)->0)
        }),
{
    let e = ExprModel::If {
        then_branch: Box::new(ExprModel::Quotation(then_body, l1)),
        else_branch: Box::new(ExprModel::Quotation(else_body, l2)),
        loc,
    };
    let (g1, rest) = if_start(g, stack);
    body_tail_call_emission(p, g1, then_body, rest, n1, c1);
    let (g2, t) = lower_from(p, g1, then_body, rest, true, 0)->Ok_0;
    let g3 = if_else(g2, t, g.temp);
    lemma_if_else_grows(g2, t, g.temp);
    body_tail_call_emission(p, g3, else_body, rest, n2, c2);
    lemma_from_grows(p, g3, else_body, rest, true, 0);
    let (g4, f) = lower_from(p, g3, else_body, rest, true, 0)->Ok_0;
    lemma_grows_trans(g2, g3, g4);
    let h = lower_expr(p, g, e, stack, true)->Ok_0.0;
    assert(h == g4);
    let callee = resolve_callee(p, n1)->0;
    let (r, s, dbg) = choose|r: Seq<char>, s: Seq<char>, dbg: Seq<char>|
        ends_with(g2.output, #[trigger] tail_call_text(r, callee, s, dbg));
    let text = tail_call_text(r, callee, s, dbg);
    assert(contains(g2.output, text)) by {
        assert(g2.output.subrange(g2.output.len() - text.len(), g2.output.len() - text.len()
            + text.len()) == text);
    }
    lemma_contains_prefix(g2.output, g4.output, text);
}

/// Tail-call emission, for a program: where a program is compiled with
/// success and the last expression of one of its words is a call of a
/// word, the text holds a tail call of the function that the call reaches.
pub proof fn program_tail_call_emission(
    p: ProgramModel,
    g: GenModel,
    entry: Option<Seq<char>>,
    k: int,
    name: Seq<char>,
    loc: LocModel,
)
    requires
        compile(p, g, entry) is Ok,
        0 <= k < p.word_defs.len(),
        p.word_defs[k].body.len() > 0,
        p.word_defs[k].body[p.word_defs[k].body.len() - 1] == ExprModel::WordCall(name, loc),
    ensures
        resolve_callee(p, name) is Some,
        holds_tail_call(compile(p, g, entry)->Ok_0.1, resolve_callee(p, name)->0),
{
    let g1 = state_before_words(p, g);
    let g2 = lower_words(p, g1, 0)->Ok_0;
    lemma_words_reach(p, g1, 0, k);
    let gk = state_before_word(p, g1, 0, k);
    let w = p.word_defs[k];
    word_tail_call_emission(p, gk, w, name, loc);
    let after = lower_word(p, gk, w)->Ok_0;
    let callee = resolve_callee(p, name)->0;
    let (r, s, dbg) = choose|r: Seq<char>, s: Seq<char>, dbg: Seq<char>|
        ends_with(after.output, #[trigger] tail_call_text(r, callee, s, dbg) + "}\n\n"@);
    let text = tail_call_text(r, callee, s, dbg);
    let whole = text + "}\n\n"@;
    let start = after.output.len() - whole.len();
    assert(after.output.subrange(start, start + text.len()) =~= whole.subrange(
        0,
        text.len() as int,
    ));
    assert(whole.subrange(0, text.len() as int) =~= text);
    assert(contains(after.output, text));
    let g4 = compile(p, g, entry)->Ok_0.0;
    lemma_ending_grows(p, g2, entry);
    lemma_grows_trans(after, g2, g4);
    lemma_contains_prefix(after.output, g4.output, text);
    lemma_contains_suffix(g4.hoisted, g4.output, text);
}

/// Literal fidelity: an integer literal is lowered to one call of the
/// integer constructor, and the instruction holds the decimal numeral of
/// the literal as it stands.
pub proof fn literal_fidelity(g: GenModel, n: i64, loc: LocModel, stack: Seq<char>)
    ensures
        lower_int(g, n, loc, stack).0.output == g.output + push_int_line(
            temp_name(g),
            stack,
            n,
            annotate(take_temp(g), loc).1,
        ),
        contains(
            push_int_line(temp_name(g), stack, n, annotate(take_temp(g), loc).1),
            "call ptr @push_int(ptr %"@ + stack + ", i64 "@ + signed_decimal(n as int) + ")"@,
        ),
{
    reveal(push_int_line);
    lemma_annotate_keeps(take_temp(g), loc);
    let r = temp_name(g);
    let dbg = annotate(take_temp(g), loc).1;
    let part = "call ptr @push_int(ptr %"@ + stack + ", i64 "@ + signed_decimal(n as int) + ")"@;
    let pre = "  %"@ + r + " = "@;
    let post = dbg + "\n"@;
    reveal_strlit("  %");
    reveal_strlit(" = ");
    reveal_strlit(" = call ptr @push_int(ptr %");
    reveal_strlit("call ptr @push_int(ptr %");
    assert(" = call ptr @push_int(ptr %"@ =~= " = "@ + "call ptr @push_int(ptr %"@);
    assert(push_int_line(r, stack, n, dbg) =~= pre + part + post);
    lemma_contains_middle(pre, part, post);
}

/// Determinism: two new generators that compile the same program with the
/// same entry word hand out the same text, or fail with the same error.
/// More generally, what a compilation hands out is a function of the
/// program, the entry word and the state of the generator.
pub proof fn compilation_is_deterministic(
    p: ProgramModel,
    q: ProgramModel,
    g: GenModel,
    h: GenModel,
    entry: Option<Seq<char>>,
)
    requires
        p == q,
        g == h,
    ensures
        compile(p, g, entry) == compile(q, h, entry),
        compile(p, fresh(), entry) == compile(q, fresh(), entry),
{
}

/// The variant that `find_variant` finds has the name that was looked for.
pub proof fn lemma_find_variant_name(variants: Seq<VariantModel>, name: Seq<char>, from: int)
    requires
        find_variant(variants, name, from) is Some,
    ensures
        0 <= find_variant(variants, name, from)->0 < variants.len(),
        variants[find_variant(variants, name, from)->0].name == name,
    decreases variants.len() - from,
{
    if 0 <= from < variants.len() && variants[from].name != name {
        lemma_find_variant_name(variants, name, from + 1);
    }
}

/// The branch that `branch_for` finds is one of the branches.
pub proof fn lemma_branch_for_range(branches: Seq<BranchModel>, name: Seq<char>, from: int)
    requires
        branch_for(branches, name, from) is Some,
    ensures
        0 <= branch_for(branches, name, from)->0 < branches.len(),
    decreases branches.len() - from,
{
    if 0 <= from < branches.len() && branches[from].variant != name {
        lemma_branch_for_range(branches, name, from + 1);
    }
}

/// Outside tail position, the blocks of the variants never take ways into
/// the merge block away, and the block of a variant that a branch names
/// adds one.
pub proof fn lemma_cases_arrive(
    p: ProgramModel,
    g: GenModel,
    id: int,
    variants: Seq<VariantModel>,
    branches: Seq<BranchModel>,
    fields: Seq<char>,
    rest: Seq<char>,
    incoming: Seq<IncomingModel>,
    i: int,
    v: int,
)
    requires
        0 <= i,
        lower_cases(p, g, id, variants, branches, fields, rest, false, incoming, i) is Ok,
    ensures
        lower_cases(p, g, id, variants, branches, fields, rest, false, incoming, i)->Ok_0.1.len()
            >= incoming.len(),
        i <= v < variants.len() && branch_for(
            branches,
            variants[v].name,
            0,
        ) is Some ==> lower_cases(
            p,
            g,
            id,
            variants,
            branches,
            fields,
            rest,
            false,
            incoming,
            i,
        )->Ok_0.1.len() > incoming.len(),
    decreases branches, variants.len() - i,
{
    if i < variants.len() {
        match branch_for(branches, variants[i].name, 0) {
            None => {
                lemma_cases_arrive(
                    p,
                    unmatched_case(g, id, i),
                    id,
                    variants,
                    branches,
                    fields,
                    rest,
                    incoming,
                    i + 1,
                    v,
                );
            },
            Some(j) => {
                lemma_branch_for_range(branches, variants[i].name, 0);
                if 0 <= j < branches.len() {
                    let label = case_label(id + 1 + i);
                    let g1 = enter(emit(g, label_line(label)), label);
                    let (g2, start) = push_fields(
                        g1,
                        variants[i].fields.len() as int,
                        fields,
                        rest,
                    )->Ok_0;
                    plain_body_goes_on(p, g2, branches[j].body, start, 0);
                    let (g3, l) = lower_from(p, g2, branches[j].body, start, false, 0)->Ok_0;
                    lemma_cases_arrive(
                        p,
                        leave_branch(g3, l, match_merge_label(id)),
                        id,
                        variants,
                        branches,
                        fields,
                        rest,
                        arrivals(incoming, g3, l),
                        i + 1,
                        v,
                    );
                }
            },
        }
    }
}

/// Only a tail position ends a function: what an expression outside tail
/// position writes never ends by returning, so the text that follows it is
/// reached.
pub proof fn plain_expression_goes_on(p: ProgramModel, g: GenModel, e: ExprModel, stack: Seq<char>)
    requires
        lower_expr(p, g, e, stack, false) is Ok,
    ensures
        !lower_expr(p, g, e, stack, false)->Ok_0.1.terminated,
    decreases e, 1nat,
{
    match e {
        ExprModel::Match { branches, loc } => {
            let t = find_type(p.type_defs, branches[0].variant, 0)->0;
            let variants = variants_at(p.type_defs, t);
            let head = match_start(g, variants.len() as int, stack);
            // The first branch names a variant, and that variant has a branch.
            let v = find_variant(variants, branches[0].variant, 0)->0;
            lemma_find_variant_name(variants, branches[0].variant, 0);
            assert(branch_for(branches, variants[v].name, 0) is Some);
            lemma_cases_arrive(
                p,
                head.state,
                g.temp,
                variants,
                branches,
                head.fields,
                head.rest,
                Seq::empty(),
                0,
                v,
            );
        },
        ExprModel::If { then_branch, else_branch, loc } => {
            let (g1, rest) = if_start(g, stack);
            plain_branch_goes_on(p, g1, *then_branch, rest);
        },
        _ => {},
    }
}

/// What a body outside tail position writes never ends by returning.
pub proof fn plain_body_goes_on(
    p: ProgramModel,
    g: GenModel,
    body: Seq<ExprModel>,
    stack: Seq<char>,
    i: int,
)
    requires
        lower_from(p, g, body, stack, false, i) is Ok,
    ensures
        !lower_from(p, g, body, stack, false, i)->Ok_0.1.terminated,
    decreases body, body.len() - i,
{
    if 0 <= i < body.len() {
        plain_expression_goes_on(p, g, body[i], stack);
        let (g1, l) = lower_expr(p, g, body[i], stack, false)->Ok_0;
        if i != body.len() - 1 {
            plain_body_goes_on(p, g1, body, l.value, i + 1);
        }
    }
}

/// What a branch outside tail position writes never ends by returning.
pub proof fn plain_branch_goes_on(p: ProgramModel, g: GenModel, branch: ExprModel, stack: Seq<char>)
    requires
        lower_branch(p, g, branch, stack, false) is Ok,
    ensures
        !lower_branch(p, g, branch, stack, false)->Ok_0.1.terminated,
    decreases branch, 0nat,
{
    match branch {
        ExprModel::Quotation(body, loc) => {
            plain_body_goes_on(p, g, body, stack, 0);
        },
        _ => {},
    }
}

} // verus!
