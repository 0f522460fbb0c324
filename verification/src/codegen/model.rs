//! The generator as mathematics: its state, and the state and text that
//! lowering each syntactic form leads to.

use vstd::prelude::*;
use crate::ast::{
    BranchModel, ExprModel, LocModel, ProgramModel, TypeDefModel, VariantModel, WordModel,
    find_variant, match_branches,
};
use crate::codegen::error::CodegenErrorModel;
use crate::codegen::layout::{bool_ptr_line, fields_ptr_line, next_ptr_line, tag_ptr_line};
use crate::codegen::lines::{
    branch_line, call_line, case_label, dbg_suffix, declaration_line, default_label, else_label,
    file_line, jump_line, label_line, load_line, location_line, main_text, match_merge_label,
    merge_label, module_flags_text, phi_head, phi_item, placeholder_file_line, push_bool_line,
    push_int_line, push_quotation_line, push_string_line, quotation_header, quotation_name,
    ret_line, store_line, string_global_line, string_global_name, string_ptr_line,
    subprogram_line, subroutine_type_line, switch_case_line, switch_head, tail_call_line,
    then_label, trunc_line, unit_line, unit_list_line, word_header,
};
use crate::codegen::primitives::primitive_target;
use crate::codegen::runtime::{RUNTIME_FUNCTION_COUNT, callable, find_runtime, runtime_entry};
use crate::text::{decimal, escape_bytes, escape_name_bytes};

verus! {

/// The record of a source file: its name and the number of its metadata.
pub struct FileModel {
    pub name: Seq<char>,
    pub id: int,
}

/// The record of a word's subprogram.
pub struct SubprogramModel {
    pub name: Seq<char>,
    pub file_id: int,
    pub line: int,
    pub id: int,
}

/// The record of a source location inside a subprogram.
pub struct LocationModel {
    pub file_id: int,
    pub line: int,
    pub column: int,
    pub scope: int,
    pub id: int,
}

/// The state of a generator.
pub struct GenModel {
    /// The text of the module written so far.
    pub output: Seq<char>,
    /// The top-level definitions that stand in front of the module text:
    /// string constants and the functions of quotations.
    pub hoisted: Seq<char>,
    /// The number of the next temporary of the function being written.
    pub temp: int,
    /// The label of the block being written.
    pub block: Seq<char>,
    /// The number of the next metadata record.
    pub meta: int,
    /// The number of the next string constant.
    pub strings: int,
    /// The number of the next quotation.
    pub quotations: int,
    /// The source files that have a record.
    pub files: Seq<FileModel>,
    /// The number of the compile-unit record, once it is written.
    pub unit: Option<int>,
    /// The subprograms of the words compiled so far.
    pub subprograms: Seq<SubprogramModel>,
    /// The subprogram of the word being written, if any.
    pub scope: Option<int>,
    /// The source locations that have a record.
    pub locations: Seq<LocationModel>,
    /// Whether the runtime functions are declared.
    pub declared: bool,
}

/// What lowering an expression hands back: the name of the stack it leaves,
/// and whether the text written ends by returning from the function.
pub struct LoweredModel {
    pub value: Seq<char>,
    pub terminated: bool,
}

/// One way into a merge block: the stack that arrives and the block it
/// arrives from.
pub struct IncomingModel {
    pub value: Seq<char>,
    pub block: Seq<char>,
}

/// The state of a new generator.
pub open spec fn fresh() -> GenModel {
    GenModel {
        output: Seq::empty(),
        hoisted: Seq::empty(),
        temp: 0,
        block: "entry"@,
        meta: 0,
        strings: 0,
        quotations: 0,
        files: Seq::empty(),
        unit: None,
        subprograms: Seq::empty(),
        scope: None,
        locations: Seq::empty(),
        declared: false,
    }
}

/// The state after `text` is written to the module.
pub open spec fn emit(g: GenModel, text: Seq<char>) -> GenModel {
    GenModel { output: g.output + text, ..g }
}

/// The state after `text` is added to the hoisted definitions.
pub open spec fn hoist(g: GenModel, text: Seq<char>) -> GenModel {
    GenModel { hoisted: g.hoisted + text, ..g }
}

/// The name of the next temporary.
pub open spec fn temp_name(g: GenModel) -> Seq<char> {
    decimal(g.temp as nat)
}

/// The state after the next temporary is taken.
pub open spec fn take_temp(g: GenModel) -> GenModel {
    GenModel { temp: g.temp + 1, ..g }
}

/// The state after the block `label` is entered.
pub open spec fn enter(g: GenModel, label: Seq<char>) -> GenModel {
    GenModel { block: label, ..g }
}

/// Whether the counters leave room for `temps` more temporaries and one more
/// of each other kind of number.
pub open spec fn room(g: GenModel, temps: int) -> bool {
    &&& g.temp + temps <= usize::MAX
    &&& g.meta < usize::MAX
    &&& g.strings < usize::MAX
    &&& g.quotations < usize::MAX
}

/// The error of a generator that has run out of numbers.
pub open spec fn overflow() -> CodegenErrorModel {
    CodegenErrorModel::InternalError("counter overflow"@)
}

/// The error of a conditional whose branch is no quotation.
pub open spec fn bad_branch() -> CodegenErrorModel {
    CodegenErrorModel::InternalError("If branches must be quotations"@)
}

/// The error of a pattern match without branches.
pub open spec fn empty_match() -> CodegenErrorModel {
    CodegenErrorModel::InternalError("Match needs at least one branch"@)
}

/// The error of a pattern match whose branches do not all name variants of
/// one declared type.
pub open spec fn bad_match() -> CodegenErrorModel {
    CodegenErrorModel::InternalError("Match branches must name variants of a declared type"@)
}

/// The text of a boolean as a bit.
pub open spec fn bit_text(b: bool) -> Seq<char> {
    if b {
        "1"@
    } else {
        "0"@
    }
}

/// What the default block of a pattern match does: it reports the error to
/// the runtime and never goes on.
pub open spec fn trap_text() -> Seq<char> {
    "  call void @runtime_error(ptr null)\n  unreachable\n"@
}

/// The first line of the module.
pub open spec fn module_header() -> Seq<char> {
    "; Cem Compiler - Generated LLVM IR\n\n"@
}

/// The number of the record of the first file at or after `from` that has
/// the given name.
pub open spec fn find_file(files: Seq<FileModel>, name: Seq<char>, from: int) -> Option<int>
    decreases files.len() - from,
{
    if from < 0 || from >= files.len() {
        None
    } else if files[from].name == name {
        Some(files[from].id)
    } else {
        find_file(files, name, from + 1)
    }
}

/// The number of the record of the first location at or after `from` that
/// has the given file, line, column and scope.
pub open spec fn find_location(
    locations: Seq<LocationModel>,
    file_id: int,
    line: int,
    column: int,
    scope: int,
    from: int,
) -> Option<int>
    decreases locations.len() - from,
{
    if from < 0 || from >= locations.len() {
        None
    } else if locations[from].file_id == file_id && locations[from].line == line
        && locations[from].column == column && locations[from].scope == scope {
        Some(locations[from].id)
    } else {
        find_location(locations, file_id, line, column, scope, from + 1)
    }
}

/// The location record of a source location: none outside a word or for a
/// file without a record, the record that exists for the same place in the
/// same word, or else a new one.
pub open spec fn debug_location(g: GenModel, loc: LocModel) -> (GenModel, Option<int>) {
    match g.scope {
        None => (g, None),
        Some(scope) => match find_file(g.files, loc.file, 0) {
            None => (g, None),
            Some(file_id) => match find_location(
                g.locations,
                file_id,
                loc.line as int,
                loc.column as int,
                scope,
                0,
            ) {
                Some(id) => (g, Some(id)),
                None => (
                    GenModel {
                        meta: g.meta + 1,
                        locations: g.locations.push(
                            LocationModel {
                                file_id,
                                line: loc.line as int,
                                column: loc.column as int,
                                scope,
                                id: g.meta,
                            },
                        ),
                        ..g
                    },
                    Some(g.meta),
                ),
            },
        },
    }
}

/// The annotation of an instruction at a source location: empty where the
/// location has no record.
pub open spec fn annotate(g: GenModel, loc: LocModel) -> (GenModel, Seq<char>) {
    let (g1, id) = debug_location(g, loc);
    (
        g1,
        match id {
            Some(i) => dbg_suffix(i),
            None => Seq::empty(),
        },
    )
}

/// Whether the program defines a word of the given name at or after `from`.
pub open spec fn has_word(words: Seq<WordModel>, name: Seq<char>, from: int) -> bool
    decreases words.len() - from,
{
    if from < 0 || from >= words.len() {
        false
    } else if words[from].name == name {
        true
    } else {
        has_word(words, name, from + 1)
    }
}

/// The function that a call of `name` reaches: the word of that name, or
/// else the runtime function behind the built-in operation of that name, or
/// else the runtime function of that name, where it takes and returns a
/// stack. `None` where there is none.
pub open spec fn resolve_callee(p: ProgramModel, name: Seq<char>) -> Option<Seq<char>> {
    if has_word(p.word_defs, name, 0) {
        Some(name)
    } else {
        let target = match primitive_target(name) {
            Some(t) => t,
            None => name,
        };
        match find_runtime(target, 0) {
            Some(i) => if callable(runtime_entry(i)) {
                Some(target)
            } else {
                None
            },
            None => None,
        }
    }
}

/// The error of a runtime function that is not declared.
pub open spec fn not_found(function: Seq<char>) -> CodegenErrorModel {
    CodegenErrorModel::RuntimeError {
        function,
        reason: "Runtime function not found. Call declare_runtime_functions() first."@,
    }
}

/// Calling a runtime function on `stack`: the function must be declared. One
/// plain call is written, and the name of the stack that it hands back is
/// given.
pub open spec fn lower_runtime_call(g: GenModel, function: Seq<char>, stack: Seq<char>) -> Result<
    (GenModel, Option<Seq<char>>),
    CodegenErrorModel,
> {
    if !g.declared || find_runtime(function, 0) is None {
        Err(not_found(function))
    } else if g.temp >= usize::MAX {
        Err(overflow())
    } else {
        Ok(
            (
                emit(take_temp(g), call_line(temp_name(g), function, stack, Seq::empty())),
                Some(temp_name(g)),
            ),
        )
    }
}

/// Compiling a built-in operation on `stack`: a call of the runtime
/// function behind it. A name that is no built-in operation writes nothing
/// and gives no stack.
pub open spec fn lower_builtin(g: GenModel, name: Seq<char>, stack: Seq<char>) -> Result<
    (GenModel, Option<Seq<char>>),
    CodegenErrorModel,
> {
    match primitive_target(name) {
        Some(target) => lower_runtime_call(g, target, stack),
        None => Ok((g, None)),
    }
}

/// The incoming stacks of a merge, written after `acc` and separated by
/// commas, from position `i` on.
pub open spec fn phi_items(acc: Seq<char>, incoming: Seq<IncomingModel>, i: int) -> Seq<char>
    decreases incoming.len() - i,
{
    if i < 0 || i >= incoming.len() {
        acc
    } else if i == 0 {
        phi_items(acc + phi_item(incoming[i].value, incoming[i].block), incoming, i + 1)
    } else {
        phi_items(acc + ", "@ + phi_item(incoming[i].value, incoming[i].block), incoming, i + 1)
    }
}

/// The instruction that names `r` the stack that arrives at a merge block.
pub open spec fn phi_line(r: Seq<char>, incoming: Seq<IncomingModel>) -> Seq<char> {
    phi_items(phi_head(r), incoming, 0) + "\n"@
}

/// The position of the first type definition at or after `from` that has a
/// variant of the given name.
pub open spec fn find_type(types: Seq<TypeDefModel>, variant: Seq<char>, from: int) -> Option<int>
    decreases types.len() - from,
{
    if from < 0 || from >= types.len() {
        None
    } else if find_variant(types[from].variants, variant, 0) is Some {
        Some(from)
    } else {
        find_type(types, variant, from + 1)
    }
}

/// The position of the first branch at or after `from` that names the given
/// variant.
pub open spec fn branch_for(branches: Seq<BranchModel>, name: Seq<char>, from: int) -> Option<int>
    decreases branches.len() - from,
{
    if from < 0 || from >= branches.len() {
        None
    } else if branches[from].variant == name {
        Some(from)
    } else {
        branch_for(branches, name, from + 1)
    }
}

/// Whether every branch at or after `from` names one of the variants.
pub open spec fn all_known(
    variants: Seq<VariantModel>,
    branches: Seq<BranchModel>,
    from: int,
) -> bool
    decreases branches.len() - from,
{
    if from < 0 || from >= branches.len() {
        true
    } else if find_variant(variants, branches[from].variant, 0) is None {
        false
    } else {
        all_known(variants, branches, from + 1)
    }
}

/// The state after the cases of a multi-way branch are written, one for each
/// variant from position `i` on, in the order of declaration: the tag of
/// variant `i` leads to the block of that variant.
pub open spec fn emit_cases(g: GenModel, id: int, count: int, i: int) -> GenModel
    decreases count - i,
{
    if i < 0 || i >= count {
        g
    } else {
        emit_cases(emit(g, switch_case_line(i, case_label(id + 1 + i))), id, count, i + 1)
    }
}

/// The state and the cell reached after following the links of a chain of
/// cells `steps` times, starting at `cell`.
pub open spec fn walk(g: GenModel, cell: Seq<char>, steps: int) -> (GenModel, Seq<char>)
    decreases steps,
{
    if steps <= 0 {
        (g, cell)
    } else {
        let np = temp_name(g);
        let g1 = emit(take_temp(g), next_ptr_line(np, cell));
        let c = temp_name(g1);
        let g2 = emit(take_temp(g1), load_line(c, "ptr"@, np));
        walk(g2, c, steps - 1)
    }
}

/// Pushing the `n` fields of a variant onto the stack `rest`: the fields
/// form a chain of cells that starts at `fields`, its last cell is linked to
/// `rest`, and the chain is the new stack. Without fields the stack is
/// `rest`.
pub open spec fn push_fields(g: GenModel, n: int, fields: Seq<char>, rest: Seq<char>) -> Result<
    (GenModel, Seq<char>),
    CodegenErrorModel,
> {
    if n <= 0 {
        Ok((g, rest))
    } else if g.temp + 2 * n > usize::MAX {
        Err(overflow())
    } else {
        let (g1, bottom) = walk(g, fields, n - 1);
        let bp = temp_name(g1);
        Ok((emit(emit(take_temp(g1), next_ptr_line(bp, bottom)), store_line(rest, bp)), fields))
    }
}

/// Lowering an integer literal: one call of the integer constructor.
pub open spec fn lower_int(g: GenModel, n: i64, loc: LocModel, stack: Seq<char>) -> (
    GenModel,
    LoweredModel,
) {
    let r = temp_name(g);
    let (g1, dbg) = annotate(take_temp(g), loc);
    (emit(g1, push_int_line(r, stack, n, dbg)), LoweredModel { value: r, terminated: false })
}

/// Lowering a boolean literal: one call of the boolean constructor.
pub open spec fn lower_bool(g: GenModel, b: bool, loc: LocModel, stack: Seq<char>) -> (
    GenModel,
    LoweredModel,
) {
    let r = temp_name(g);
    let (g1, dbg) = annotate(take_temp(g), loc);
    (
        emit(g1, push_bool_line(r, stack, bit_text(b), dbg)),
        LoweredModel { value: r, terminated: false },
    )
}

/// Lowering a string literal: a hoisted constant that holds the escaped
/// UTF-8 bytes and a closing zero byte, and a call of the string constructor
/// on its address.
pub open spec fn lower_string(g: GenModel, s: Seq<char>, loc: LocModel, stack: Seq<char>) -> (
    GenModel,
    LoweredModel,
) {
    let bytes = vstd::utf8::encode_utf8(s);
    let global = string_global_name(g.strings);
    let len = bytes.len() as int + 1;
    let g1 = hoist(
        GenModel { strings: g.strings + 1, ..g },
        string_global_line(global, len, escape_bytes(bytes)),
    );
    let ptr = temp_name(g1);
    let g2 = take_temp(g1);
    let r = temp_name(g2);
    let (g3, dbg) = annotate(take_temp(g2), loc);
    (
        emit(
            emit(g3, string_ptr_line(ptr, len, global, dbg)),
            push_string_line(r, stack, ptr, dbg),
        ),
        LoweredModel { value: r, terminated: false },
    )
}

/// Lowering a call of `callee`: a tail call followed by a return in tail
/// position, a plain call elsewhere.
pub open spec fn lower_call(
    g: GenModel,
    callee: Seq<char>,
    loc: LocModel,
    stack: Seq<char>,
    tail: bool,
) -> (GenModel, LoweredModel) {
    let r = temp_name(g);
    let (g1, dbg) = annotate(take_temp(g), loc);
    if tail {
        (
            emit(emit(g1, tail_call_line(r, callee, stack, dbg)), ret_line(r)),
            LoweredModel { value: r, terminated: true },
        )
    } else {
        (emit(g1, call_line(r, callee, stack, dbg)), LoweredModel { value: r, terminated: false })
    }
}

/// The state in which the function of the next quotation starts: its header
/// is all the module text, the temporaries start at zero, and no location is
/// recorded inside it.
pub open spec fn quotation_start(g: GenModel) -> GenModel {
    GenModel {
        output: quotation_header(quotation_name(g.quotations)),
        temp: 0,
        block: "entry"@,
        scope: None,
        quotations: g.quotations + 1,
        ..g
    }
}

/// What of the enclosing function is set aside while the function of a
/// quotation is written.
pub struct SuspendedModel {
    pub output: Seq<char>,
    pub temp: int,
    pub block: Seq<char>,
    pub scope: Option<int>,
    pub name: Seq<char>,
}

/// What is set aside when the next quotation starts in state `g`, with the
/// name of the quotation's function.
pub open spec fn suspend(g: GenModel) -> SuspendedModel {
    SuspendedModel {
        output: g.output,
        temp: g.temp,
        block: g.block,
        scope: g.scope,
        name: quotation_name(g.quotations),
    }
}

/// What a quotation leaves once its body is lowered. `inner` is the state
/// after its body, which left `l`. The function is closed off and hoisted,
/// the enclosing function goes on where it was, and a pointer to the new
/// function is pushed.
pub open spec fn quotation_end(
    saved: SuspendedModel,
    inner: GenModel,
    l: LoweredModel,
    stack: Seq<char>,
) -> (GenModel, LoweredModel) {
    let g2 = emit(end_function(inner, l), "}\n\n"@);
    let g3 = GenModel {
        output: saved.output,
        hoisted: g2.hoisted + g2.output,
        temp: saved.temp,
        block: saved.block,
        scope: saved.scope,
        ..g2
    };
    let r = temp_name(g3);
    (
        emit(take_temp(g3), push_quotation_line(r, stack, saved.name)),
        LoweredModel { value: r, terminated: false },
    )
}

/// The start of a conditional: the boolean is read from the payload of the
/// top cell and the rest of the stack from its link, the branch on the
/// boolean is written, and the block of the first branch is entered. Hands
/// back the state and the name of the rest of the stack.
#[verifier::opaque]
pub open spec fn if_start(g: GenModel, stack: Seq<char>) -> (GenModel, Seq<char>) {
    let id = g.temp;
    let g0 = take_temp(g);
    let bp = temp_name(g0);
    let g1 = emit(take_temp(g0), bool_ptr_line(bp, stack));
    let bv = temp_name(g1);
    let g2 = emit(take_temp(g1), load_line(bv, "i8"@, bp));
    let c = temp_name(g2);
    let g3 = emit(take_temp(g2), trunc_line(c, bv));
    let rp = temp_name(g3);
    let g4 = emit(take_temp(g3), next_ptr_line(rp, stack));
    let rest = temp_name(g4);
    let g5 = emit(take_temp(g4), load_line(rest, "ptr"@, rp));
    let g6 = emit(g5, branch_line(c, then_label(id), else_label(id)));
    (enter(emit(g6, label_line(then_label(id))), then_label(id)), rest)
}

/// The middle of the conditional numbered `id`: the first branch, which left
/// `t`, is left, and the block of the second branch is entered.
pub open spec fn if_else(g: GenModel, t: LoweredModel, id: int) -> GenModel {
    enter(
        emit(leave_branch(g, t, merge_label(id)), label_line(else_label(id))),
        else_label(id),
    )
}

/// Lowering one expression: the state afterwards and what it hands back, or
/// the error that ends the compilation.
///
/// `stack` names the stack that the expression starts from. In tail
/// position (`tail`), a word call becomes a tail call followed by a return,
/// and the branches of a conditional or a pattern match are in tail position
/// too. A loop is not lowered yet.
pub open spec fn lower_expr(
    p: ProgramModel,
    g: GenModel,
    e: ExprModel,
    stack: Seq<char>,
    tail: bool,
) -> Result<(GenModel, LoweredModel), CodegenErrorModel>
    decreases e, 1nat,
{
    if !room(g, 8) {
        Err(overflow())
    } else {
        match e {
            ExprModel::IntLit(n, loc) => Ok(lower_int(g, n, loc, stack)),
            ExprModel::BoolLit(b, loc) => Ok(lower_bool(g, b, loc, stack)),
            ExprModel::StringLit(s, loc) => Ok(lower_string(g, s, loc, stack)),
            ExprModel::WordCall(name, loc) => match resolve_callee(p, name) {
                None => Err(CodegenErrorModel::UnknownWord { name, location: None }),
                Some(callee) => Ok(lower_call(g, callee, loc, stack, tail)),
            },
            ExprModel::Quotation(body, loc) => match lower_from(
                p,
                quotation_start(g),
                body,
                "stack"@,
                true,
                0,
            ) {
                Err(err) => Err(err),
                Ok((g1, l)) => Ok(quotation_end(suspend(g), g1, l, stack)),
            },
            ExprModel::Match { branches, loc } => lower_match(p, g, e, stack, tail),
            ExprModel::If { then_branch, else_branch, loc } => {
                let (g1, rest) = if_start(g, stack);
                match lower_branch(p, g1, *then_branch, rest, tail) {
                    Err(err) => Err(err),
                    Ok((g2, t)) => match lower_branch(
                        p,
                        if_else(g2, t, g.temp),
                        *else_branch,
                        rest,
                        tail,
                    ) {
                        Err(err) => Err(err),
                        Ok((g3, f)) => merge(
                            leave_branch(g3, f, merge_label(g.temp)),
                            merge_label(g.temp),
                            arrivals(arrivals(Seq::empty(), g2, t), g3, f),
                            t.value,
                        ),
                    },
                }
            },
            ExprModel::While { condition, body, loc } => Err(
                CodegenErrorModel::Unimplemented { feature: "while loops"@ },
            ),
        }
    }
}

/// The state after the function being written is closed off: a return of
/// the stack it leaves, unless its text already ends by returning.
pub open spec fn end_function(g: GenModel, l: LoweredModel) -> GenModel {
    if l.terminated {
        g
    } else {
        emit(g, ret_line(l.value))
    }
}

/// The state after a branch is left: a jump to the merge block, unless the
/// branch already ends by returning.
pub open spec fn leave_branch(g: GenModel, l: LoweredModel, merge: Seq<char>) -> GenModel {
    if l.terminated {
        g
    } else {
        emit(g, jump_line(merge))
    }
}

/// The ways into a merge block after one more branch: a branch that does not
/// end by returning arrives with its stack from the block it ended in.
pub open spec fn arrivals(incoming: Seq<IncomingModel>, g: GenModel, l: LoweredModel) -> Seq<
    IncomingModel,
> {
    if l.terminated {
        incoming
    } else {
        incoming.push(IncomingModel { value: l.value, block: g.block })
    }
}

/// Where branches meet again. If every branch ends by returning, nothing is
/// written and the construct ends by returning too. Otherwise the merge
/// block is opened and names the stack that arrives.
pub open spec fn merge(
    g: GenModel,
    label: Seq<char>,
    incoming: Seq<IncomingModel>,
    unused: Seq<char>,
) -> Result<(GenModel, LoweredModel), CodegenErrorModel> {
    if incoming.len() == 0 {
        Ok((g, LoweredModel { value: unused, terminated: true }))
    } else if g.temp >= usize::MAX {
        Err(overflow())
    } else {
        let g1 = enter(emit(g, label_line(label)), label);
        let r = temp_name(g1);
        Ok(
            (
                emit(take_temp(g1), phi_line(r, incoming)),
                LoweredModel { value: r, terminated: false },
            ),
        )
    }
}

/// Lowering the expressions of a body from position `i` on, each starting
/// from the stack that the one before left. Only the last one can be in
/// tail position.
pub open spec fn lower_from(
    p: ProgramModel,
    g: GenModel,
    body: Seq<ExprModel>,
    stack: Seq<char>,
    tail: bool,
    i: int,
) -> Result<(GenModel, LoweredModel), CodegenErrorModel>
    decreases body, body.len() - i,
{
    if i < 0 || i >= body.len() {
        Ok((g, LoweredModel { value: stack, terminated: false }))
    } else {
        match lower_expr(p, g, body[i], stack, tail && i == body.len() - 1) {
            Err(err) => Err(err),
            Ok((g1, l)) => if i == body.len() - 1 {
                Ok((g1, l))
            } else {
                lower_from(p, g1, body, l.value, tail, i + 1)
            },
        }
    }
}

/// Lowering a branch of a conditional, which must be a quotation: its body
/// is lowered in place.
pub open spec fn lower_branch(
    p: ProgramModel,
    g: GenModel,
    branch: ExprModel,
    stack: Seq<char>,
    tail: bool,
) -> Result<(GenModel, LoweredModel), CodegenErrorModel>
    decreases branch, 0nat,
{
    match branch {
        ExprModel::Quotation(body, loc) => lower_from(p, g, body, stack, tail, 0),
        _ => Err(bad_branch()),
    }
}

/// What the start of a pattern match hands on: the state, and the names of
/// the chain of field cells and of the rest of the stack.
pub struct MatchHead {
    pub state: GenModel,
    pub fields: Seq<char>,
    pub rest: Seq<char>,
}

/// The start of a pattern match on a value of a type with `count`
/// variants. It takes one number for its default and merge blocks and one
/// for the block of each variant. The variant tag and the chain of field
/// cells are read from the payload of the top cell and the rest of the
/// stack from its link, and the multi-way branch on the tag is written: one
/// case for each variant, in the order of declaration, and the default
/// block.
#[verifier::opaque]
pub open spec fn match_start(g: GenModel, count: int, stack: Seq<char>) -> MatchHead {
    let id = g.temp;
    let g0 = GenModel { temp: g.temp + 1 + count, ..g };
    let tp = temp_name(g0);
    let g1 = emit(take_temp(g0), tag_ptr_line(tp, stack));
    let tag = temp_name(g1);
    let g2 = emit(take_temp(g1), load_line(tag, "i32"@, tp));
    let fp = temp_name(g2);
    let g3 = emit(take_temp(g2), fields_ptr_line(fp, stack));
    let fields = temp_name(g3);
    let g4 = emit(take_temp(g3), load_line(fields, "ptr"@, fp));
    let rp = temp_name(g4);
    let g5 = emit(take_temp(g4), next_ptr_line(rp, stack));
    let rest = temp_name(g5);
    let g6 = emit(take_temp(g5), load_line(rest, "ptr"@, rp));
    MatchHead {
        state: emit(
            emit_cases(emit(g6, switch_head(tag, default_label(id))), id, count, 0),
            "  ]\n"@,
        ),
        fields,
        rest,
    }
}

/// The variants of the type definition at position `t`.
pub open spec fn variants_at(types: Seq<TypeDefModel>, t: int) -> Seq<VariantModel> {
    if 0 <= t < types.len() {
        types[t].variants
    } else {
        Seq::empty()
    }
}

/// Lowering a pattern match on the value on top of `stack`.
///
/// The branches select the type: the first declared type with a variant
/// that the first branch names. The variant tag and the chain of field cells
/// are read from the payload of the top cell, and a multi-way branch on the
/// tag has one case for each declared variant, in the order of declaration,
/// and the default block.
pub open spec fn lower_match(
    p: ProgramModel,
    g: GenModel,
    e: ExprModel,
    stack: Seq<char>,
    tail: bool,
) -> Result<(GenModel, LoweredModel), CodegenErrorModel>
    decreases e, 0nat,
{
    let branches = match_branches(e);
    if branches.len() == 0 {
        Err(empty_match())
    } else {
        match find_type(p.type_defs, branches[0].variant, 0) {
            None => Err(bad_match()),
            Some(t) => {
                let variants = variants_at(p.type_defs, t);
                if !all_known(variants, branches, 0) {
                    Err(bad_match())
                } else if !room(g, variants.len() as int + 8) {
                    Err(overflow())
                } else {
                    let id = g.temp;
                    let h = match_start(g, variants.len() as int, stack);
                    let g7 = h.state;
                    let fields = h.fields;
                    let rest = h.rest;
                    match lower_cases(
                        p,
                        g7,
                        id,
                        variants,
                        branches,
                        fields,
                        rest,
                        tail,
                        Seq::empty(),
                        0,
                    ) {
                        Err(err) => Err(err),
                        Ok((g8, incoming)) => {
                            let g9 = emit(emit(g8, label_line(default_label(id))), trap_text());
                            merge(g9, match_merge_label(id), incoming, stack)
                        },
                    }
                }
            },
        }
    }
}

/// The block of variant `i` of the pattern match numbered `id`, where no
/// branch names the variant: it leads to the default block.
pub open spec fn unmatched_case(g: GenModel, id: int, i: int) -> GenModel {
    let label = case_label(id + 1 + i);
    emit(enter(emit(g, label_line(label)), label), jump_line(default_label(id)))
}

/// Lowering the blocks of the variants from position `i` on, one for each
/// variant: the block of a variant that a branch names pushes the variant's
/// fields onto the rest of the stack and goes on with the body of the first
/// such branch; the block of any other variant leads to the default block.
pub open spec fn lower_cases(
    p: ProgramModel,
    g: GenModel,
    id: int,
    variants: Seq<VariantModel>,
    branches: Seq<BranchModel>,
    fields: Seq<char>,
    rest: Seq<char>,
    tail: bool,
    incoming: Seq<IncomingModel>,
    i: int,
) -> Result<(GenModel, Seq<IncomingModel>), CodegenErrorModel>
    decreases branches, variants.len() - i,
{
    if i < 0 || i >= variants.len() {
        Ok((g, incoming))
    } else {
        match branch_for(branches, variants[i].name, 0) {
            None => lower_cases(
                p,
                unmatched_case(g, id, i),
                id,
                variants,
                branches,
                fields,
                rest,
                tail,
                incoming,
                i + 1,
            ),
            Some(j) => if j < 0 || j >= branches.len() {
                Ok((g, incoming))
            } else {
                let label = case_label(id + 1 + i);
                let g1 = enter(emit(g, label_line(label)), label);
                match push_fields(g1, variants[i].fields.len() as int, fields, rest) {
                    Err(err) => Err(err),
                    Ok((g2, start)) => match lower_from(p, g2, branches[j].body, start, tail, 0) {
                        Err(err) => Err(err),
                        Ok((g3, l)) => lower_cases(
                            p,
                            leave_branch(g3, l, match_merge_label(id)),
                            id,
                            variants,
                            branches,
                            fields,
                            rest,
                            tail,
                            arrivals(incoming, g3, l),
                            i + 1,
                        ),
                    },
                }
            },
        }
    }
}

/// Compiling a word to a function: the word gets a subprogram record, the
/// temporaries start at zero, the body is lowered in tail position from the
/// stack that comes in, and the stack it leaves is returned.
pub open spec fn lower_word(p: ProgramModel, g: GenModel, w: WordModel) -> Result<
    GenModel,
    CodegenErrorModel,
> {
    if g.meta >= usize::MAX {
        Err(overflow())
    } else {
        let id = g.meta;
        let file_id = match find_file(g.files, w.loc.file, 0) {
            Some(f) => f,
            None => 0,
        };
        let g1 = GenModel {
            temp: 0,
            block: "entry"@,
            meta: g.meta + 1,
            subprograms: g.subprograms.push(
                SubprogramModel { name: w.name, file_id, line: w.loc.line as int, id },
            ),
            scope: Some(id),
            ..g
        };
        match lower_from(p, emit(g1, word_header(w.name, id)), w.body, "stack"@, true, 0) {
            Err(err) => Err(err),
            Ok((g2, l)) => Ok(GenModel { scope: None, ..emit(end_function(g2, l), "}\n\n"@) }),
        }
    }
}

/// Compiling the words of a program from position `i` on, in order.
pub open spec fn lower_words(p: ProgramModel, g: GenModel, i: int) -> Result<
    GenModel,
    CodegenErrorModel,
>
    decreases p.word_defs.len() - i,
{
    if i < 0 || i >= p.word_defs.len() {
        Ok(g)
    } else {
        match lower_word(p, g, p.word_defs[i]) {
            Err(err) => Err(err),
            Ok(g1) => lower_words(p, g1, i + 1),
        }
    }
}

/// The state after the declarations of the runtime functions from position
/// `i` of the list on are written.
pub open spec fn emit_declarations(g: GenModel, i: int) -> GenModel
    decreases RUNTIME_FUNCTION_COUNT - i,
{
    if i < 0 || i >= RUNTIME_FUNCTION_COUNT {
        g
    } else {
        let f = runtime_entry(i);
        emit_declarations(emit(g, declaration_line(f.result, f.name, f.params)), i + 1)
    }
}

/// The state after every runtime function is declared.
pub open spec fn declare(g: GenModel) -> GenModel {
    GenModel {
        declared: true,
        ..emit(emit_declarations(emit(g, "; Runtime function declarations\n"@), 0), "\n"@)
    }
}

/// The source files of the words from position `i` on that are not among
/// `found`, added to `found` in the order in which they first occur.
pub open spec fn collect_files(words: Seq<WordModel>, found: Seq<Seq<char>>, i: int) -> Seq<
    Seq<char>,
>
    decreases words.len() - i,
{
    if i < 0 || i >= words.len() {
        found
    } else if found.contains(words[i].loc.file) {
        collect_files(words, found, i + 1)
    } else {
        collect_files(words, found.push(words[i].loc.file), i + 1)
    }
}

/// The position of the last `/` among the first `upto` bytes.
pub open spec fn last_slash(bytes: Seq<u8>, upto: int) -> Option<int>
    decreases upto,
{
    if upto <= 0 || upto > bytes.len() {
        None
    } else if bytes[upto - 1] == 0x2F {
        Some(upto - 1)
    } else {
        last_slash(bytes, upto - 1)
    }
}

/// The directory of a path: what stands before its last `/`, and nothing
/// where it has none.
pub open spec fn directory_bytes(path: Seq<u8>) -> Seq<u8> {
    match last_slash(path, path.len() as int) {
        Some(k) => path.subrange(0, k),
        None => Seq::empty(),
    }
}

/// The file name of a path: what stands after its last `/`, and the whole
/// path where it has none.
pub open spec fn name_bytes(path: Seq<u8>) -> Seq<u8> {
    match last_slash(path, path.len() as int) {
        Some(k) => path.subrange(k + 1, path.len() as int),
        None => path,
    }
}

/// The state after the files from position `i` on have got their records.
pub open spec fn emit_files(g: GenModel, files: Seq<Seq<char>>, i: int) -> GenModel
    decreases files.len() - i,
{
    if i < 0 || i >= files.len() {
        g
    } else {
        let path = vstd::utf8::encode_utf8(files[i]);
        let g1 = GenModel {
            meta: g.meta + 1,
            files: g.files.push(FileModel { name: files[i], id: g.meta }),
            ..g
        };
        emit_files(
            emit(
                g1,
                file_line(
                    g.meta,
                    escape_name_bytes(name_bytes(path)),
                    escape_name_bytes(directory_bytes(path)),
                ),
            ),
            files,
            i + 1,
        )
    }
}

/// The first part of the debug information: one record for each source
/// file.
pub open spec fn debug_header(g: GenModel, files: Seq<Seq<char>>) -> Result<
    GenModel,
    CodegenErrorModel,
> {
    if g.meta + files.len() > usize::MAX {
        Err(overflow())
    } else {
        Ok(emit(emit_files(emit(g, "; Debug Information\n\n"@), files, 0), "\n"@))
    }
}

/// The state after the entry function is written, where one is asked for.
pub open spec fn with_main(p: ProgramModel, g: GenModel, entry: Option<Seq<char>>) -> Result<
    GenModel,
    CodegenErrorModel,
> {
    match entry {
        None => Ok(g),
        Some(name) => match resolve_callee(p, name) {
            None => Err(CodegenErrorModel::UnknownWord { name, location: None }),
            Some(callee) => Ok(emit(g, main_text(callee))),
        },
    }
}

/// The state after the subprogram records from position `i` on are written;
/// the type record of subprogram `i` has the number `types + i`.
pub open spec fn emit_subprograms(g: GenModel, types: int, unit: int, i: int) -> GenModel
    decreases g.subprograms.len() - i,
{
    if i < 0 || i >= g.subprograms.len() {
        g
    } else {
        let s = g.subprograms[i];
        emit_subprograms(
            emit(g, subprogram_line(s.id, s.name, s.file_id, s.line, types + i, unit)),
            types,
            unit,
            i + 1,
        )
    }
}

/// The state after `count` stub type records are written, from number
/// `types + i` on.
pub open spec fn emit_types(g: GenModel, types: int, count: int, i: int) -> GenModel
    decreases count - i,
{
    if i < 0 || i >= count {
        g
    } else {
        emit_types(emit(g, subroutine_type_line(types + i)), types, count, i + 1)
    }
}

/// The state after the location records from position `i` on are written.
pub open spec fn emit_locations(g: GenModel, i: int) -> GenModel
    decreases g.locations.len() - i,
{
    if i < 0 || i >= g.locations.len() {
        g
    } else {
        let l = g.locations[i];
        emit_locations(emit(g, location_line(l.id, l.line, l.column, l.scope)), i + 1)
    }
}

/// The last part of the debug information: the compile unit, with the first
/// source file as its file (a placeholder where there is none), one
/// subprogram and one stub type for each word, the location records, and the
/// module flags.
pub open spec fn debug_footer(g: GenModel) -> Result<GenModel, CodegenErrorModel> {
    if g.meta + g.subprograms.len() + 3 > usize::MAX {
        Err(overflow())
    } else {
        let unit = g.meta;
        let g1 = GenModel {
            meta: g.meta + 1,
            unit: Some(unit),
            ..emit(g, "; Debug Info Compile Unit\n"@)
        };
        let (g2, file) = if g1.files.len() == 0 {
            (GenModel { meta: g1.meta + 1, ..emit(g1, placeholder_file_line(g1.meta)) }, g1.meta)
        } else {
            (g1, g1.files[0].id)
        };
        let g3 = emit(
            emit(g2, unit_line(unit, file)),
            "\n; DISubprogram metadata for each word\n"@,
        );
        let types = g3.meta;
        let count = g3.subprograms.len() as int;
        let g4 = emit_subprograms(GenModel { meta: g3.meta + count, ..g3 }, types, unit, 0);
        let g5 = emit_types(emit(g4, "\n; Type metadata (stubs)\n"@), types, count, 0);
        let g6 = if g5.locations.len() == 0 {
            g5
        } else {
            emit_locations(emit(g5, "\n; DILocation metadata\n"@), 0)
        };
        let g7 = emit(emit(g6, "\n"@), unit_list_line(unit));
        let flags = g7.meta;
        Ok(
            emit(
                emit(GenModel { meta: g7.meta + 1, ..g7 }, module_flags_text(flags)),
                "\n"@,
            ),
        )
    }
}

/// Compiling a program: the header, the declarations of the runtime
/// functions, the records of the source files, one function for each word
/// in order, the entry function where one is asked for, and the rest of the
/// debug information. The text handed out is the hoisted definitions
/// followed by the module text.
pub open spec fn compile(p: ProgramModel, g: GenModel, entry: Option<Seq<char>>) -> Result<
    (GenModel, Seq<char>),
    CodegenErrorModel,
> {
    match debug_header(
        declare(emit(g, module_header())),
        collect_files(p.word_defs, Seq::empty(), 0),
    ) {
        Err(err) => Err(err),
        Ok(g1) => match lower_words(p, g1, 0) {
            Err(err) => Err(err),
            Ok(g2) => match with_main(p, g2, entry) {
                Err(err) => Err(err),
                Ok(g3) => match debug_footer(g3) {
                    Err(err) => Err(err),
                    Ok(g4) => Ok((g4, g4.hoisted + g4.output)),
                },
            },
        },
    }
}

} // verus!
