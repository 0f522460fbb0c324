//! The built-in operations of the language, and the runtime function that
//! stands behind each of them.

use vstd::prelude::*;
use crate::text::same_text;

verus! {

/// The runtime function that carries out a built-in operation: the stack
/// operations under their own names, arithmetic and comparisons under their
/// symbols, and the two control operations. `None` for any other name.
pub open spec fn primitive_target(name: Seq<char>) -> Option<Seq<char>> {
    if name == "dup"@ {
        Some("dup"@)
    } else if name == "drop"@ {
        Some("drop"@)
    } else if name == "swap"@ {
        Some("swap"@)
    } else if name == "over"@ {
        Some("over"@)
    } else if name == "rot"@ {
        Some("rot"@)
    } else if name == "+"@ {
        Some("add"@)
    } else if name == "-"@ {
        Some("subtract"@)
    } else if name == "*"@ {
        Some("multiply"@)
    } else if name == "/"@ {
        Some("divide"@)
    } else if name == "<"@ {
        Some("less_than"@)
    } else if name == ">"@ {
        Some("greater_than"@)
    } else if name == "="@ {
        Some("equal"@)
    } else if name == "call"@ {
        Some("call_quotation"@)
    } else if name == "if"@ {
        Some("if_then_else"@)
    } else {
        None
    }
}

/// The runtime function that carries out the built-in operation `name`.
pub fn runtime_name(name: &str) -> (r: Option<&'static str>)
    ensures
        match r {
            Some(t) => primitive_target(name@) == Some(t@),
            None => primitive_target(name@) is None,
        },
{
    if same_text(name, "dup") {
        Some("dup")
    } else if same_text(name, "drop") {
        Some("drop")
    } else if same_text(name, "swap") {
        Some("swap")
    } else if same_text(name, "over") {
        Some("over")
    } else if same_text(name, "rot") {
        Some("rot")
    } else if same_text(name, "+") {
        Some("add")
    } else if same_text(name, "-") {
        Some("subtract")
    } else if same_text(name, "*") {
        Some("multiply")
    } else if same_text(name, "/") {
        Some("divide")
    } else if same_text(name, "<") {
        Some("less_than")
    } else if same_text(name, ">") {
        Some("greater_than")
    } else if same_text(name, "=") {
        Some("equal")
    } else if same_text(name, "call") {
        Some("call_quotation")
    } else if same_text(name, "if") {
        Some("if_then_else")
    } else {
        None
    }
}

/// Whether a word name is a built-in operation.
pub fn is_primitive(name: &str) -> (r: bool)
    ensures
        r == primitive_target(name@) is Some,
{
    runtime_name(name).is_some()
}

} // verus!
