//! The text of each kind of line that the generator writes, as a function of
//! the names and numbers that stand in it.

use vstd::prelude::*;
use crate::text::{decimal, push_decimal, push_signed_decimal, signed_decimal};

verus! {

/// The annotation that ties an instruction to the location record `id`.
#[verifier::opaque]
pub open spec fn dbg_suffix(id: int) -> Seq<char> {
    ", !dbg !"@ + decimal(id as nat)
}

/// Builds the text that `dbg_suffix` describes.
pub(crate) fn build_dbg_suffix(id: usize) -> (text: String)
    ensures
        text@ == dbg_suffix(id as int),
{
    reveal(dbg_suffix);
    let mut text = String::from_str(", !dbg !");
    push_decimal(&mut text, id as u128);
    text
}

/// The label of the block that a conditional enters when its condition holds.
#[verifier::opaque]
pub open spec fn then_label(n: int) -> Seq<char> {
    "then_"@ + decimal(n as nat)
}

/// Builds the text that `then_label` describes.
pub(crate) fn build_then_label(n: usize) -> (text: String)
    ensures
        text@ == then_label(n as int),
{
    reveal(then_label);
    let mut text = String::from_str("then_");
    push_decimal(&mut text, n as u128);
    text
}

/// The label of the block that a conditional enters when its condition fails.
#[verifier::opaque]
pub open spec fn else_label(n: int) -> Seq<char> {
    "else_"@ + decimal(n as nat)
}

/// Builds the text that `else_label` describes.
pub(crate) fn build_else_label(n: usize) -> (text: String)
    ensures
        text@ == else_label(n as int),
{
    reveal(else_label);
    let mut text = String::from_str("else_");
    push_decimal(&mut text, n as u128);
    text
}

/// The label of the block where the branches of a conditional meet.
#[verifier::opaque]
pub open spec fn merge_label(n: int) -> Seq<char> {
    "merge_"@ + decimal(n as nat)
}

/// Builds the text that `merge_label` describes.
pub(crate) fn build_merge_label(n: usize) -> (text: String)
    ensures
        text@ == merge_label(n as int),
{
    reveal(merge_label);
    let mut text = String::from_str("merge_");
    push_decimal(&mut text, n as u128);
    text
}

/// The label of the block of one variant of a pattern match.
#[verifier::opaque]
pub open spec fn case_label(n: int) -> Seq<char> {
    "match_case_"@ + decimal(n as nat)
}

/// Builds the text that `case_label` describes.
pub(crate) fn build_case_label(n: usize) -> (text: String)
    ensures
        text@ == case_label(n as int),
{
    reveal(case_label);
    let mut text = String::from_str("match_case_");
    push_decimal(&mut text, n as u128);
    text
}

/// The label of the block that a pattern match enters on an unknown tag.
#[verifier::opaque]
pub open spec fn default_label(n: int) -> Seq<char> {
    "match_default_"@ + decimal(n as nat)
}

/// Builds the text that `default_label` describes.
pub(crate) fn build_default_label(n: usize) -> (text: String)
    ensures
        text@ == default_label(n as int),
{
    reveal(default_label);
    let mut text = String::from_str("match_default_");
    push_decimal(&mut text, n as u128);
    text
}

/// The label of the block where the branches of a pattern match meet.
#[verifier::opaque]
pub open spec fn match_merge_label(n: int) -> Seq<char> {
    "match_merge_"@ + decimal(n as nat)
}

/// Builds the text that `match_merge_label` describes.
pub(crate) fn build_match_merge_label(n: usize) -> (text: String)
    ensures
        text@ == match_merge_label(n as int),
{
    reveal(match_merge_label);
    let mut text = String::from_str("match_merge_");
    push_decimal(&mut text, n as u128);
    text
}

/// The name of the function of the quotation numbered `n`.
#[verifier::opaque]
pub open spec fn quotation_name(n: int) -> Seq<char> {
    "quot_"@ + decimal(n as nat)
}

/// Builds the text that `quotation_name` describes.
pub(crate) fn build_quotation_name(n: usize) -> (text: String)
    ensures
        text@ == quotation_name(n as int),
{
    reveal(quotation_name);
    let mut text = String::from_str("quot_");
    push_decimal(&mut text, n as u128);
    text
}

/// The name of the string constant numbered `n`.
#[verifier::opaque]
pub open spec fn string_global_name(n: int) -> Seq<char> {
    "@.str."@ + decimal(n as nat)
}

/// Builds the text that `string_global_name` describes.
pub(crate) fn build_string_global_name(n: usize) -> (text: String)
    ensures
        text@ == string_global_name(n as int),
{
    reveal(string_global_name);
    let mut text = String::from_str("@.str.");
    push_decimal(&mut text, n as u128);
    text
}

/// The instruction that pushes the integer `n` onto `stack` and names the new stack `r`.
#[verifier::opaque]
pub open spec fn push_int_line(
    r: Seq<char>,
    stack: Seq<char>,
    n: i64,
    dbg: Seq<char>,
) -> Seq<char> {
    "  %"@ + r + " = call ptr @push_int(ptr %"@ + stack + ", i64 "@ + signed_decimal(n as int)
        + ")"@ + dbg + "\n"@
}

/// Builds the text that `push_int_line` describes.
pub(crate) fn build_push_int_line(r: &str, stack: &str, n: i64, dbg: &str) -> (text: String)
    ensures
        text@ == push_int_line(r@, stack@, n, dbg@),
{
    reveal(push_int_line);
    let mut text = String::from_str("  %");
    text.append(r);
    text.append(" = call ptr @push_int(ptr %");
    text.append(stack);
    text.append(", i64 ");
    push_signed_decimal(&mut text, n);
    text.append(")");
    text.append(dbg);
    text.append("\n");
    text
}

/// The instruction that pushes a boolean, written as the bit `bit`, onto `stack`.
#[verifier::opaque]
pub open spec fn push_bool_line(
    r: Seq<char>,
    stack: Seq<char>,
    bit: Seq<char>,
    dbg: Seq<char>,
) -> Seq<char> {
    "  %"@ + r + " = call ptr @push_bool(ptr %"@ + stack + ", i1 "@ + bit + ")"@ + dbg + "\n"@
}

/// Builds the text that `push_bool_line` describes.
pub(crate) fn build_push_bool_line(r: &str, stack: &str, bit: &str, dbg: &str) -> (text: String)
    ensures
        text@ == push_bool_line(r@, stack@, bit@, dbg@),
{
    reveal(push_bool_line);
    let mut text = String::from_str("  %");
    text.append(r);
    text.append(" = call ptr @push_bool(ptr %");
    text.append(stack);
    text.append(", i1 ");
    text.append(bit);
    text.append(")");
    text.append(dbg);
    text.append("\n");
    text
}

/// The definition of a string constant of `len` bytes, the closing zero byte included.
#[verifier::opaque]
pub open spec fn string_global_line(global: Seq<char>, len: int, escaped: Seq<char>) -> Seq<char> {
    global + " = private unnamed_addr constant ["@ + decimal(len as nat) + " x i8] c\""@ + escaped
        + "\\00\"\n"@
}

/// Builds the text that `string_global_line` describes.
pub(crate) fn build_string_global_line(global: &str, len: u128, escaped: &str) -> (text: String)
    ensures
        text@ == string_global_line(global@, len as int, escaped@),
{
    reveal(string_global_line);
    let mut text = String::from_str(global);
    text.append(" = private unnamed_addr constant [");
    push_decimal(&mut text, len);
    text.append(" x i8] c\"");
    text.append(escaped);
    text.append("\\00\"\n");
    text
}

/// The instruction that takes the address of the first byte of a string constant.
#[verifier::opaque]
pub open spec fn string_ptr_line(
    r: Seq<char>,
    len: int,
    global: Seq<char>,
    dbg: Seq<char>,
) -> Seq<char> {
    "  %"@ + r + " = getelementptr inbounds ["@ + decimal(len as nat) + " x i8], ptr "@ + global
        + ", i32 0, i32 0"@ + dbg + "\n"@
}

/// Builds the text that `string_ptr_line` describes.
pub(crate) fn build_string_ptr_line(r: &str, len: u128, global: &str, dbg: &str) -> (text: String)
    ensures
        text@ == string_ptr_line(r@, len as int, global@, dbg@),
{
    reveal(string_ptr_line);
    let mut text = String::from_str("  %");
    text.append(r);
    text.append(" = getelementptr inbounds [");
    push_decimal(&mut text, len);
    text.append(" x i8], ptr ");
    text.append(global);
    text.append(", i32 0, i32 0");
    text.append(dbg);
    text.append("\n");
    text
}

/// The instruction that pushes the string at `p` onto `stack`.
#[verifier::opaque]
pub open spec fn push_string_line(
    r: Seq<char>,
    stack: Seq<char>,
    p: Seq<char>,
    dbg: Seq<char>,
) -> Seq<char> {
    "  %"@ + r + " = call ptr @push_string(ptr %"@ + stack + ", ptr %"@ + p + ")"@ + dbg + "\n"@
}

/// Builds the text that `push_string_line` describes.
pub(crate) fn build_push_string_line(r: &str, stack: &str, p: &str, dbg: &str) -> (text: String)
    ensures
        text@ == push_string_line(r@, stack@, p@, dbg@),
{
    reveal(push_string_line);
    let mut text = String::from_str("  %");
    text.append(r);
    text.append(" = call ptr @push_string(ptr %");
    text.append(stack);
    text.append(", ptr %");
    text.append(p);
    text.append(")");
    text.append(dbg);
    text.append("\n");
    text
}

/// The instruction that calls `callee` on `stack`.
#[verifier::opaque]
pub open spec fn call_line(
    r: Seq<char>,
    callee: Seq<char>,
    stack: Seq<char>,
    dbg: Seq<char>,
) -> Seq<char> {
    "  %"@ + r + " = call ptr @"@ + callee + "(ptr %"@ + stack + ")"@ + dbg + "\n"@
}

/// Builds the text that `call_line` describes.
pub(crate) fn build_call_line(r: &str, callee: &str, stack: &str, dbg: &str) -> (text: String)
    ensures
        text@ == call_line(r@, callee@, stack@, dbg@),
{
    reveal(call_line);
    let mut text = String::from_str("  %");
    text.append(r);
    text.append(" = call ptr @");
    text.append(callee);
    text.append("(ptr %");
    text.append(stack);
    text.append(")");
    text.append(dbg);
    text.append("\n");
    text
}

/// The instruction that calls `callee` on `stack` as a tail call.
#[verifier::opaque]
pub open spec fn tail_call_line(
    r: Seq<char>,
    callee: Seq<char>,
    stack: Seq<char>,
    dbg: Seq<char>,
) -> Seq<char> {
    "  %"@ + r + " = musttail call ptr @"@ + callee + "(ptr %"@ + stack + ")"@ + dbg + "\n"@
}

/// Builds the text that `tail_call_line` describes.
pub(crate) fn build_tail_call_line(r: &str, callee: &str, stack: &str, dbg: &str) -> (text: String)
    ensures
        text@ == tail_call_line(r@, callee@, stack@, dbg@),
{
    reveal(tail_call_line);
    let mut text = String::from_str("  %");
    text.append(r);
    text.append(" = musttail call ptr @");
    text.append(callee);
    text.append("(ptr %");
    text.append(stack);
    text.append(")");
    text.append(dbg);
    text.append("\n");
    text
}

/// The instruction that returns the stack `v`.
#[verifier::opaque]
pub open spec fn ret_line(v: Seq<char>) -> Seq<char> {
    "  ret ptr %"@ + v + "\n"@
}

/// Builds the text that `ret_line` describes.
pub(crate) fn build_ret_line(v: &str) -> (text: String)
    ensures
        text@ == ret_line(v@),
{
    reveal(ret_line);
    let mut text = String::from_str("  ret ptr %");
    text.append(v);
    text.append("\n");
    text
}

/// The opening of the function of a quotation.
#[verifier::opaque]
pub open spec fn quotation_header(name: Seq<char>) -> Seq<char> {
    "define ptr @"@ + name + "(ptr %stack) {\nentry:\n"@
}

/// Builds the text that `quotation_header` describes.
pub(crate) fn build_quotation_header(name: &str) -> (text: String)
    ensures
        text@ == quotation_header(name@),
{
    reveal(quotation_header);
    let mut text = String::from_str("define ptr @");
    text.append(name);
    text.append("(ptr %stack) {\nentry:\n");
    text
}

/// The opening of the function of a word, tied to its subprogram record `id`.
#[verifier::opaque]
pub open spec fn word_header(name: Seq<char>, id: int) -> Seq<char> {
    "define ptr @"@ + name + "(ptr %stack) !dbg !"@ + decimal(id as nat) + " {\nentry:\n"@
}

/// Builds the text that `word_header` describes.
pub(crate) fn build_word_header(name: &str, id: usize) -> (text: String)
    ensures
        text@ == word_header(name@, id as int),
{
    reveal(word_header);
    let mut text = String::from_str("define ptr @");
    text.append(name);
    text.append("(ptr %stack) !dbg !");
    push_decimal(&mut text, id as u128);
    text.append(" {\nentry:\n");
    text
}

/// The instruction that pushes a pointer to the function `name` onto `stack`.
#[verifier::opaque]
pub open spec fn push_quotation_line(r: Seq<char>, stack: Seq<char>, name: Seq<char>) -> Seq<char> {
    "  %"@ + r + " = call ptr @push_quotation(ptr %"@ + stack + ", ptr @"@ + name + ")\n"@
}

/// Builds the text that `push_quotation_line` describes.
pub(crate) fn build_push_quotation_line(r: &str, stack: &str, name: &str) -> (text: String)
    ensures
        text@ == push_quotation_line(r@, stack@, name@),
{
    reveal(push_quotation_line);
    let mut text = String::from_str("  %");
    text.append(r);
    text.append(" = call ptr @push_quotation(ptr %");
    text.append(stack);
    text.append(", ptr @");
    text.append(name);
    text.append(")\n");
    text
}

/// The instruction that takes the address of a field of `cell`: `layout` is the type of a cell and `path` the indices that lead to the field.
#[verifier::opaque]
pub open spec fn field_ptr_line(
    r: Seq<char>,
    layout: Seq<char>,
    cell: Seq<char>,
    path: Seq<char>,
) -> Seq<char> {
    "  %"@ + r + " = getelementptr inbounds "@ + layout + ", ptr %"@ + cell + ", "@ + path + "\n"@
}

/// Builds the text that `field_ptr_line` describes.
pub(crate) fn build_field_ptr_line(r: &str, layout: &str, cell: &str, path: &str) -> (text: String)
    ensures
        text@ == field_ptr_line(r@, layout@, cell@, path@),
{
    reveal(field_ptr_line);
    let mut text = String::from_str("  %");
    text.append(r);
    text.append(" = getelementptr inbounds ");
    text.append(layout);
    text.append(", ptr %");
    text.append(cell);
    text.append(", ");
    text.append(path);
    text.append("\n");
    text
}

/// The instruction that loads a value of type `ty` from the address `p`.
#[verifier::opaque]
pub open spec fn load_line(r: Seq<char>, ty: Seq<char>, p: Seq<char>) -> Seq<char> {
    "  %"@ + r + " = load "@ + ty + ", ptr %"@ + p + "\n"@
}

/// Builds the text that `load_line` describes.
pub(crate) fn build_load_line(r: &str, ty: &str, p: &str) -> (text: String)
    ensures
        text@ == load_line(r@, ty@, p@),
{
    reveal(load_line);
    let mut text = String::from_str("  %");
    text.append(r);
    text.append(" = load ");
    text.append(ty);
    text.append(", ptr %");
    text.append(p);
    text.append("\n");
    text
}

/// The instruction that narrows the byte `v` to a bit.
#[verifier::opaque]
pub open spec fn trunc_line(r: Seq<char>, v: Seq<char>) -> Seq<char> {
    "  %"@ + r + " = trunc i8 %"@ + v + " to i1\n"@
}

/// Builds the text that `trunc_line` describes.
pub(crate) fn build_trunc_line(r: &str, v: &str) -> (text: String)
    ensures
        text@ == trunc_line(r@, v@),
{
    reveal(trunc_line);
    let mut text = String::from_str("  %");
    text.append(r);
    text.append(" = trunc i8 %");
    text.append(v);
    text.append(" to i1\n");
    text
}

/// The instruction that stores the pointer `v` at the address `p`.
#[verifier::opaque]
pub open spec fn store_line(v: Seq<char>, p: Seq<char>) -> Seq<char> {
    "  store ptr %"@ + v + ", ptr %"@ + p + "\n"@
}

/// Builds the text that `store_line` describes.
pub(crate) fn build_store_line(v: &str, p: &str) -> (text: String)
    ensures
        text@ == store_line(v@, p@),
{
    reveal(store_line);
    let mut text = String::from_str("  store ptr %");
    text.append(v);
    text.append(", ptr %");
    text.append(p);
    text.append("\n");
    text
}

/// The instruction that branches on the bit `c`.
#[verifier::opaque]
pub open spec fn branch_line(c: Seq<char>, yes: Seq<char>, no: Seq<char>) -> Seq<char> {
    "  br i1 %"@ + c + ", label %"@ + yes + ", label %"@ + no + "\n"@
}

/// Builds the text that `branch_line` describes.
pub(crate) fn build_branch_line(c: &str, yes: &str, no: &str) -> (text: String)
    ensures
        text@ == branch_line(c@, yes@, no@),
{
    reveal(branch_line);
    let mut text = String::from_str("  br i1 %");
    text.append(c);
    text.append(", label %");
    text.append(yes);
    text.append(", label %");
    text.append(no);
    text.append("\n");
    text
}

/// The line that opens the block `label`.
#[verifier::opaque]
pub open spec fn label_line(label: Seq<char>) -> Seq<char> {
    label + ":\n"@
}

/// Builds the text that `label_line` describes.
pub(crate) fn build_label_line(label: &str) -> (text: String)
    ensures
        text@ == label_line(label@),
{
    reveal(label_line);
    let mut text = String::from_str(label);
    text.append(":\n");
    text
}

/// The instruction that jumps to the block `label`.
#[verifier::opaque]
pub open spec fn jump_line(label: Seq<char>) -> Seq<char> {
    "  br label %"@ + label + "\n"@
}

/// Builds the text that `jump_line` describes.
pub(crate) fn build_jump_line(label: &str) -> (text: String)
    ensures
        text@ == jump_line(label@),
{
    reveal(jump_line);
    let mut text = String::from_str("  br label %");
    text.append(label);
    text.append("\n");
    text
}

/// The start of the instruction that merges the stacks of several blocks.
#[verifier::opaque]
pub open spec fn phi_head(r: Seq<char>) -> Seq<char> {
    "  %"@ + r + " = phi ptr "@
}

/// Builds the text that `phi_head` describes.
pub(crate) fn build_phi_head(r: &str) -> (text: String)
    ensures
        text@ == phi_head(r@),
{
    reveal(phi_head);
    let mut text = String::from_str("  %");
    text.append(r);
    text.append(" = phi ptr ");
    text
}

/// One incoming stack of a merge: the value `v` from the block `pred`.
#[verifier::opaque]
pub open spec fn phi_item(v: Seq<char>, pred: Seq<char>) -> Seq<char> {
    "[ %"@ + v + ", %"@ + pred + " ]"@
}

/// Builds the text that `phi_item` describes.
pub(crate) fn build_phi_item(v: &str, pred: &str) -> (text: String)
    ensures
        text@ == phi_item(v@, pred@),
{
    reveal(phi_item);
    let mut text = String::from_str("[ %");
    text.append(v);
    text.append(", %");
    text.append(pred);
    text.append(" ]");
    text
}

/// The start of the multi-way branch on the tag `tag`, with its default block.
#[verifier::opaque]
pub open spec fn switch_head(tag: Seq<char>, default: Seq<char>) -> Seq<char> {
    "  switch i32 %"@ + tag + ", label %"@ + default + " [\n"@
}

/// Builds the text that `switch_head` describes.
pub(crate) fn build_switch_head(tag: &str, default: &str) -> (text: String)
    ensures
        text@ == switch_head(tag@, default@),
{
    reveal(switch_head);
    let mut text = String::from_str("  switch i32 %");
    text.append(tag);
    text.append(", label %");
    text.append(default);
    text.append(" [\n");
    text
}

/// One case of a multi-way branch: the tag `i` leads to `label`.
#[verifier::opaque]
pub open spec fn switch_case_line(i: int, label: Seq<char>) -> Seq<char> {
    "    i32 "@ + decimal(i as nat) + ", label %"@ + label + "\n"@
}

/// Builds the text that `switch_case_line` describes.
pub(crate) fn build_switch_case_line(i: usize, label: &str) -> (text: String)
    ensures
        text@ == switch_case_line(i as int, label@),
{
    reveal(switch_case_line);
    let mut text = String::from_str("    i32 ");
    push_decimal(&mut text, i as u128);
    text.append(", label %");
    text.append(label);
    text.append("\n");
    text
}

/// The declaration of a runtime function.
#[verifier::opaque]
pub open spec fn declaration_line(
    result: Seq<char>,
    name: Seq<char>,
    params: Seq<char>,
) -> Seq<char> {
    "declare "@ + result + " @"@ + name + "("@ + params + ")\n"@
}

/// Builds the text that `declaration_line` describes.
pub(crate) fn build_declaration_line(result: &str, name: &str, params: &str) -> (text: String)
    ensures
        text@ == declaration_line(result@, name@, params@),
{
    reveal(declaration_line);
    let mut text = String::from_str("declare ");
    text.append(result);
    text.append(" @");
    text.append(name);
    text.append("(");
    text.append(params);
    text.append(")\n");
    text
}

/// The entry function: it runs `callee` on an empty stack, prints and frees what is left, and reports success.
#[verifier::opaque]
pub open spec fn main_text(callee: Seq<char>) -> Seq<char> {
    "; Main function\ndefine i32 @main() {\nentry:\n  %stack = call ptr @"@ + callee
        + "(ptr null)\n  call void @print_stack(ptr %stack)\n  call void @free_stack(ptr %stack)\n  ret i32 0\n}\n\n"@
}

/// Builds the text that `main_text` describes.
pub(crate) fn build_main_text(callee: &str) -> (text: String)
    ensures
        text@ == main_text(callee@),
{
    reveal(main_text);
    let mut text = String::from_str("; Main function\ndefine i32 @main() {\nentry:\n  %stack = call ptr @");
    text.append(callee);
    text.append("(ptr null)\n  call void @print_stack(ptr %stack)\n  call void @free_stack(ptr %stack)\n  ret i32 0\n}\n\n");
    text
}

/// The record of a source file, from its escaped name and directory.
#[verifier::opaque]
pub open spec fn file_line(id: int, name: Seq<char>, directory: Seq<char>) -> Seq<char> {
    "!"@ + decimal(id as nat) + " = !DIFile(filename: \""@ + name + "\", directory: \""@ + directory
        + "\")\n"@
}

/// Builds the text that `file_line` describes.
pub(crate) fn build_file_line(id: usize, name: &str, directory: &str) -> (text: String)
    ensures
        text@ == file_line(id as int, name@, directory@),
{
    reveal(file_line);
    let mut text = String::from_str("!");
    push_decimal(&mut text, id as u128);
    text.append(" = !DIFile(filename: \"");
    text.append(name);
    text.append("\", directory: \"");
    text.append(directory);
    text.append("\")\n");
    text
}

/// The file record of a program without words.
#[verifier::opaque]
pub open spec fn placeholder_file_line(id: int) -> Seq<char> {
    "!"@ + decimal(id as nat) + " = !DIFile(filename: \"<empty>\", directory: \".\")\n"@
}

/// Builds the text that `placeholder_file_line` describes.
pub(crate) fn build_placeholder_file_line(id: usize) -> (text: String)
    ensures
        text@ == placeholder_file_line(id as int),
{
    reveal(placeholder_file_line);
    let mut text = String::from_str("!");
    push_decimal(&mut text, id as u128);
    text.append(" = !DIFile(filename: \"<empty>\", directory: \".\")\n");
    text
}

/// The compile-unit record.
#[verifier::opaque]
pub open spec fn unit_line(id: int, file: int) -> Seq<char> {
    "!"@ + decimal(id as nat) + " = distinct !DICompileUnit(language: DW_LANG_C, file: !"@
        + decimal(file as nat)
        + ", producer: \"Cem Compiler\", isOptimized: false, runtimeVersion: 0, emissionKind: FullDebug)\n"@
}

/// Builds the text that `unit_line` describes.
pub(crate) fn build_unit_line(id: usize, file: usize) -> (text: String)
    ensures
        text@ == unit_line(id as int, file as int),
{
    reveal(unit_line);
    let mut text = String::from_str("!");
    push_decimal(&mut text, id as u128);
    text.append(" = distinct !DICompileUnit(language: DW_LANG_C, file: !");
    push_decimal(&mut text, file as u128);
    text.append(", producer: \"Cem Compiler\", isOptimized: false, runtimeVersion: 0, emissionKind: FullDebug)\n");
    text
}

/// The subprogram record of a word.
#[verifier::opaque]
pub open spec fn subprogram_line(
    id: int,
    name: Seq<char>,
    file: int,
    line: int,
    ty: int,
    unit: int,
) -> Seq<char> {
    "!"@ + decimal(id as nat) + " = distinct !DISubprogram(name: \""@ + name + "\", scope: !"@
        + decimal(file as nat) + ", file: !"@ + decimal(file as nat) + ", line: "@
        + decimal(line as nat) + ", type: !"@ + decimal(ty as nat) + ", scopeLine: "@
        + decimal(line as nat) + ", flags: DIFlagPrototyped, spFlags: DISPFlagDefinition, unit: !"@
        + decimal(unit as nat) + ")\n"@
}

/// Builds the text that `subprogram_line` describes.
pub(crate) fn build_subprogram_line(
    id: usize,
    name: &str,
    file: usize,
    line: usize,
    ty: usize,
    unit: usize,
) -> (text: String)
    ensures
        text@ == subprogram_line(id as int, name@, file as int, line as int, ty as int, unit as int),
{
    reveal(subprogram_line);
    let mut text = String::from_str("!");
    push_decimal(&mut text, id as u128);
    text.append(" = distinct !DISubprogram(name: \"");
    text.append(name);
    text.append("\", scope: !");
    push_decimal(&mut text, file as u128);
    text.append(", file: !");
    push_decimal(&mut text, file as u128);
    text.append(", line: ");
    push_decimal(&mut text, line as u128);
    text.append(", type: !");
    push_decimal(&mut text, ty as u128);
    text.append(", scopeLine: ");
    push_decimal(&mut text, line as u128);
    text.append(", flags: DIFlagPrototyped, spFlags: DISPFlagDefinition, unit: !");
    push_decimal(&mut text, unit as u128);
    text.append(")\n");
    text
}

/// The stub type record of a word's function.
#[verifier::opaque]
pub open spec fn subroutine_type_line(id: int) -> Seq<char> {
    "!"@ + decimal(id as nat) + " = !DISubroutineType(types: !{})\n"@
}

/// Builds the text that `subroutine_type_line` describes.
pub(crate) fn build_subroutine_type_line(id: usize) -> (text: String)
    ensures
        text@ == subroutine_type_line(id as int),
{
    reveal(subroutine_type_line);
    let mut text = String::from_str("!");
    push_decimal(&mut text, id as u128);
    text.append(" = !DISubroutineType(types: !{})\n");
    text
}

/// The record of a source location inside the subprogram `scope`.
#[verifier::opaque]
pub open spec fn location_line(id: int, line: int, column: int, scope: int) -> Seq<char> {
    "!"@ + decimal(id as nat) + " = !DILocation(line: "@ + decimal(line as nat) + ", column: "@
        + decimal(column as nat) + ", scope: !"@ + decimal(scope as nat) + ")\n"@
}

/// Builds the text that `location_line` describes.
pub(crate) fn build_location_line(
    id: usize,
    line: usize,
    column: usize,
    scope: usize,
) -> (text: String)
    ensures
        text@ == location_line(id as int, line as int, column as int, scope as int),
{
    reveal(location_line);
    let mut text = String::from_str("!");
    push_decimal(&mut text, id as u128);
    text.append(" = !DILocation(line: ");
    push_decimal(&mut text, line as u128);
    text.append(", column: ");
    push_decimal(&mut text, column as u128);
    text.append(", scope: !");
    push_decimal(&mut text, scope as u128);
    text.append(")\n");
    text
}

/// The list of compile units of the module.
#[verifier::opaque]
pub open spec fn unit_list_line(id: int) -> Seq<char> {
    "!llvm.dbg.cu = !{!"@ + decimal(id as nat) + "}\n"@
}

/// Builds the text that `unit_list_line` describes.
pub(crate) fn build_unit_list_line(id: usize) -> (text: String)
    ensures
        text@ == unit_list_line(id as int),
{
    reveal(unit_list_line);
    let mut text = String::from_str("!llvm.dbg.cu = !{!");
    push_decimal(&mut text, id as u128);
    text.append("}\n");
    text
}

/// The module flags, which give the version of the debug information.
#[verifier::opaque]
pub open spec fn module_flags_text(id: int) -> Seq<char> {
    "!llvm.module.flags = !{!"@ + decimal(id as nat) + "}\n!"@ + decimal(id as nat)
        + " = !{i32 2, !\"Debug Info Version\", i32 3}\n"@
}

/// Builds the text that `module_flags_text` describes.
pub(crate) fn build_module_flags_text(id: usize) -> (text: String)
    ensures
        text@ == module_flags_text(id as int),
{
    reveal(module_flags_text);
    let mut text = String::from_str("!llvm.module.flags = !{!");
    push_decimal(&mut text, id as u128);
    text.append("}\n!");
    push_decimal(&mut text, id as u128);
    text.append(" = !{i32 2, !\"Debug Info Version\", i32 3}\n");
    text
}
} // verus!
