//! The layout of a stack cell, which generated code shares with the
//! runtime.
//!
//! A cell holds a tag, padding, a payload of sixteen bytes and a link to the
//! cell below it. The payload of a boolean is its first byte. The payload
//! of a value of a sum type is the tag of its variant in the first four
//! bytes and, from byte eight on, a pointer to the chain of cells that hold
//! its fields, the last field on top.

use vstd::prelude::*;
use crate::codegen::lines::{build_field_ptr_line, field_ptr_line};

verus! {

/// The version of the layout. The runtime that generated code is linked
/// with must have been built for the same version.
pub const LAYOUT_VERSION: u32 = 1;

/// The type of a cell.
pub const CELL_LAYOUT: &'static str = "{ i32, [4 x i8], [16 x i8], ptr }";

/// The indices that lead to the payload of a boolean.
pub const BOOL_PATH: &'static str = "i32 0, i32 2, i32 0";

/// The indices that lead to the tag of the variant of a value of a sum
/// type.
pub const TAG_PATH: &'static str = "i32 0, i32 2, i32 0";

/// The indices that lead to the pointer to the fields of a value of a sum
/// type.
pub const FIELDS_PATH: &'static str = "i32 0, i32 2, i32 8";

/// The indices that lead to the link to the cell below.
pub const NEXT_PATH: &'static str = "i32 0, i32 3";

/// The instruction that takes the address of the payload of the boolean in
/// `cell`.
pub open spec fn bool_ptr_line(r: Seq<char>, cell: Seq<char>) -> Seq<char> {
    field_ptr_line(r, CELL_LAYOUT@, cell, BOOL_PATH@)
}

/// The instruction that takes the address of the variant tag in `cell`.
pub open spec fn tag_ptr_line(r: Seq<char>, cell: Seq<char>) -> Seq<char> {
    field_ptr_line(r, CELL_LAYOUT@, cell, TAG_PATH@)
}

/// The instruction that takes the address of the pointer to the fields in
/// `cell`.
pub open spec fn fields_ptr_line(r: Seq<char>, cell: Seq<char>) -> Seq<char> {
    field_ptr_line(r, CELL_LAYOUT@, cell, FIELDS_PATH@)
}

/// The instruction that takes the address of the link of `cell` to the cell
/// below it.
pub open spec fn next_ptr_line(r: Seq<char>, cell: Seq<char>) -> Seq<char> {
    field_ptr_line(r, CELL_LAYOUT@, cell, NEXT_PATH@)
}

/// Builds the text that `bool_ptr_line` describes.
pub(crate) fn build_bool_ptr_line(r: &str, cell: &str) -> (text: String)
    ensures
        text@ == bool_ptr_line(r@, cell@),
{
    build_field_ptr_line(r, CELL_LAYOUT, cell, BOOL_PATH)
}

/// Builds the text that `tag_ptr_line` describes.
pub(crate) fn build_tag_ptr_line(r: &str, cell: &str) -> (text: String)
    ensures
        text@ == tag_ptr_line(r@, cell@),
{
    build_field_ptr_line(r, CELL_LAYOUT, cell, TAG_PATH)
}

/// Builds the text that `fields_ptr_line` describes.
pub(crate) fn build_fields_ptr_line(r: &str, cell: &str) -> (text: String)
    ensures
        text@ == fields_ptr_line(r@, cell@),
{
    build_field_ptr_line(r, CELL_LAYOUT, cell, FIELDS_PATH)
}

/// Builds the text that `next_ptr_line` describes.
pub(crate) fn build_next_ptr_line(r: &str, cell: &str) -> (text: String)
    ensures
        text@ == next_ptr_line(r@, cell@),
{
    build_field_ptr_line(r, CELL_LAYOUT, cell, NEXT_PATH)
}

} // verus!
