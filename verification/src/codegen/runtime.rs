//! The runtime functions that generated code calls: the one place where the
//! runtime's interface is listed.

use vstd::prelude::*;
use crate::text::same_text;

verus! {

/// Model of the description of a runtime function.
pub struct RuntimeFunctionModel {
    pub name: Seq<char>,
    pub description: Seq<char>,
    pub result: Seq<char>,
    pub params: Seq<char>,
}

/// A runtime function: its name, what it does, and its signature as the
/// result type and the parameter types of its declaration.
#[derive(Debug, Clone, Copy, PartialEq)]
pub struct RuntimeFunction {
    pub name: &'static str,
    pub description: &'static str,
    pub result: &'static str,
    pub params: &'static str,
}

impl View for RuntimeFunction {
    type V = RuntimeFunctionModel;

    open spec fn view(&self) -> RuntimeFunctionModel {
        RuntimeFunctionModel {
            name: self.name@,
            description: self.description@,
            result: self.result@,
            params: self.params@,
        }
    }
}

/// How many runtime functions there are.
pub const RUNTIME_FUNCTION_COUNT: usize = 24;

/// The runtime function at a position of the list: stack operations,
/// arithmetic, comparisons, constructors, control, string operations, the
/// scheduler hook and utilities.
pub open spec fn runtime_entry(i: int) -> RuntimeFunctionModel {
    if i == 0 {
        RuntimeFunctionModel {
            name: "dup"@,
            description: "Duplicate top stack element"@,
            result: "ptr"@,
            params: "ptr"@,
        }
    } else if i == 1 {
        RuntimeFunctionModel {
            name: "drop"@,
            description: "Remove top stack element"@,
            result: "ptr"@,
            params: "ptr"@,
        }
    } else if i == 2 {
        RuntimeFunctionModel {
            name: "swap"@,
            description: "Swap top two stack elements"@,
            result: "ptr"@,
            params: "ptr"@,
        }
    } else if i == 3 {
        RuntimeFunctionModel {
            name: "over"@,
            description: "Copy second element to top"@,
            result: "ptr"@,
            params: "ptr"@,
        }
    } else if i == 4 {
        RuntimeFunctionModel {
            name: "rot"@,
            description: "Rotate top three elements"@,
            result: "ptr"@,
            params: "ptr"@,
        }
    } else if i == 5 {
        RuntimeFunctionModel {
            name: "add"@,
            description: "Add top two integers"@,
            result: "ptr"@,
            params: "ptr"@,
        }
    } else if i == 6 {
        RuntimeFunctionModel {
            name: "subtract"@,
            description: "Subtract top two integers"@,
            result: "ptr"@,
            params: "ptr"@,
        }
    } else if i == 7 {
        RuntimeFunctionModel {
            name: "multiply"@,
            description: "Multiply top two integers"@,
            result: "ptr"@,
            params: "ptr"@,
        }
    } else if i == 8 {
        RuntimeFunctionModel {
            name: "divide"@,
            description: "Divide top two integers"@,
            result: "ptr"@,
            params: "ptr"@,
        }
    } else if i == 9 {
        RuntimeFunctionModel {
            name: "less_than"@,
            description: "Compare if first < second"@,
            result: "ptr"@,
            params: "ptr"@,
        }
    } else if i == 10 {
        RuntimeFunctionModel {
            name: "greater_than"@,
            description: "Compare if first > second"@,
            result: "ptr"@,
            params: "ptr"@,
        }
    } else if i == 11 {
        RuntimeFunctionModel {
            name: "equal"@,
            description: "Compare if first == second"@,
            result: "ptr"@,
            params: "ptr"@,
        }
    } else if i == 12 {
        RuntimeFunctionModel {
            name: "push_int"@,
            description: "Push integer onto stack"@,
            result: "ptr"@,
            params: "ptr, i64"@,
        }
    } else if i == 13 {
        RuntimeFunctionModel {
            name: "push_bool"@,
            description: "Push boolean onto stack"@,
            result: "ptr"@,
            params: "ptr, i1"@,
        }
    } else if i == 14 {
        RuntimeFunctionModel {
            name: "push_string"@,
            description: "Push string onto stack"@,
            result: "ptr"@,
            params: "ptr, ptr"@,
        }
    } else if i == 15 {
        RuntimeFunctionModel {
            name: "push_quotation"@,
            description: "Push quotation onto stack"@,
            result: "ptr"@,
            params: "ptr, ptr"@,
        }
    } else if i == 16 {
        RuntimeFunctionModel {
            name: "call_quotation"@,
            description: "Call a quotation"@,
            result: "ptr"@,
            params: "ptr"@,
        }
    } else if i == 17 {
        RuntimeFunctionModel {
            name: "string_length"@,
            description: "Length of top string"@,
            result: "ptr"@,
            params: "ptr"@,
        }
    } else if i == 18 {
        RuntimeFunctionModel {
            name: "string_concat"@,
            description: "Concatenate top two strings"@,
            result: "ptr"@,
            params: "ptr"@,
        }
    } else if i == 19 {
        RuntimeFunctionModel {
            name: "string_equal"@,
            description: "Compare top two strings"@,
            result: "ptr"@,
            params: "ptr"@,
        }
    } else if i == 20 {
        RuntimeFunctionModel {
            name: "test_yield"@,
            description: "Yield to the scheduler"@,
            result: "ptr"@,
            params: "ptr"@,
        }
    } else if i == 21 {
        RuntimeFunctionModel {
            name: "print_stack"@,
            description: "Print the stack"@,
            result: "void"@,
            params: "ptr"@,
        }
    } else if i == 22 {
        RuntimeFunctionModel {
            name: "free_stack"@,
            description: "Free the stack"@,
            result: "void"@,
            params: "ptr"@,
        }
    } else {
        RuntimeFunctionModel {
            name: "runtime_error"@,
            description: "Report an error and stop"@,
            result: "void"@,
            params: "ptr"@,
        }
    }
}

/// Whether a runtime function takes a stack and returns a stack, so that a
/// word call can name it.
pub open spec fn callable(f: RuntimeFunctionModel) -> bool {
    f.result == "ptr"@ && f.params == "ptr"@
}

/// The position of the first runtime function at or after `from` that has
/// the given name.
pub open spec fn find_runtime(name: Seq<char>, from: int) -> Option<int>
    decreases RUNTIME_FUNCTION_COUNT - from,
{
    if from < 0 || from >= RUNTIME_FUNCTION_COUNT {
        None
    } else if runtime_entry(from).name == name {
        Some(from)
    } else {
        find_runtime(name, from + 1)
    }
}

/// The runtime function at position `i` of the list.
pub fn runtime_function_at(i: usize) -> (r: RuntimeFunction)
    requires
        i < RUNTIME_FUNCTION_COUNT,
    ensures
        r@ == runtime_entry(i as int),
{
    if i == 0 {
        RuntimeFunction {
            name: "dup",
            description: "Duplicate top stack element",
            result: "ptr",
            params: "ptr",
        }
    } else if i == 1 {
        RuntimeFunction {
            name: "drop",
            description: "Remove top stack element",
            result: "ptr",
            params: "ptr",
        }
    } else if i == 2 {
        RuntimeFunction {
            name: "swap",
            description: "Swap top two stack elements",
            result: "ptr",
            params: "ptr",
        }
    } else if i == 3 {
        RuntimeFunction {
            name: "over",
            description: "Copy second element to top",
            result: "ptr",
            params: "ptr",
        }
    } else if i == 4 {
        RuntimeFunction {
            name: "rot",
            description: "Rotate top three elements",
            result: "ptr",
            params: "ptr",
        }
    } else if i == 5 {
        RuntimeFunction {
            name: "add",
            description: "Add top two integers",
            result: "ptr",
            params: "ptr",
        }
    } else if i == 6 {
        RuntimeFunction {
            name: "subtract",
            description: "Subtract top two integers",
            result: "ptr",
            params: "ptr",
        }
    } else if i == 7 {
        RuntimeFunction {
            name: "multiply",
            description: "Multiply top two integers",
            result: "ptr",
            params: "ptr",
        }
    } else if i == 8 {
        RuntimeFunction {
            name: "divide",
            description: "Divide top two integers",
            result: "ptr",
            params: "ptr",
        }
    } else if i == 9 {
        RuntimeFunction {
            name: "less_than",
            description: "Compare if first < second",
            result: "ptr",
            params: "ptr",
        }
    } else if i == 10 {
        RuntimeFunction {
            name: "greater_than",
            description: "Compare if first > second",
            result: "ptr",
            params: "ptr",
        }
    } else if i == 11 {
        RuntimeFunction {
            name: "equal",
            description: "Compare if first == second",
            result: "ptr",
            params: "ptr",
        }
    } else if i == 12 {
        RuntimeFunction {
            name: "push_int",
            description: "Push integer onto stack",
            result: "ptr",
            params: "ptr, i64",
        }
    } else if i == 13 {
        RuntimeFunction {
            name: "push_bool",
            description: "Push boolean onto stack",
            result: "ptr",
            params: "ptr, i1",
        }
    } else if i == 14 {
        RuntimeFunction {
            name: "push_string",
            description: "Push string onto stack",
            result: "ptr",
            params: "ptr, ptr",
        }
    } else if i == 15 {
        RuntimeFunction {
            name: "push_quotation",
            description: "Push quotation onto stack",
            result: "ptr",
            params: "ptr, ptr",
        }
    } else if i == 16 {
        RuntimeFunction {
            name: "call_quotation",
            description: "Call a quotation",
            result: "ptr",
            params: "ptr",
        }
    } else if i == 17 {
        RuntimeFunction {
            name: "string_length",
            description: "Length of top string",
            result: "ptr",
            params: "ptr",
        }
    } else if i == 18 {
        RuntimeFunction {
            name: "string_concat",
            description: "Concatenate top two strings",
            result: "ptr",
            params: "ptr",
        }
    } else if i == 19 {
        RuntimeFunction {
            name: "string_equal",
            description: "Compare top two strings",
            result: "ptr",
            params: "ptr",
        }
    } else if i == 20 {
        RuntimeFunction {
            name: "test_yield",
            description: "Yield to the scheduler",
            result: "ptr",
            params: "ptr",
        }
    } else if i == 21 {
        RuntimeFunction {
            name: "print_stack",
            description: "Print the stack",
            result: "void",
            params: "ptr",
        }
    } else if i == 22 {
        RuntimeFunction {
            name: "free_stack",
            description: "Free the stack",
            result: "void",
            params: "ptr",
        }
    } else {
        RuntimeFunction {
            name: "runtime_error",
            description: "Report an error and stop",
            result: "void",
            params: "ptr",
        }
    }
}

/// All runtime functions, in the order of the list.
pub fn runtime_functions() -> (r: Vec<RuntimeFunction>)
    ensures
        r@.len() == RUNTIME_FUNCTION_COUNT,
        forall|i: int| 0 <= i < RUNTIME_FUNCTION_COUNT ==> (#[trigger] r@[i])@ == runtime_entry(i),
{
    let mut out: Vec<RuntimeFunction> = Vec::new();
    let mut i: usize = 0;
    while i < RUNTIME_FUNCTION_COUNT
        invariant
            i <= RUNTIME_FUNCTION_COUNT,
            out@.len() == i,
            forall|k: int| 0 <= k < i ==> (#[trigger] out@[k])@ == runtime_entry(k),
        decreases RUNTIME_FUNCTION_COUNT - i,
    {
        out.push(runtime_function_at(i));
        i += 1;
    }
    out
}

/// Looks a runtime function up by name.
pub fn lookup_runtime_function(name: &str) -> (r: Option<RuntimeFunction>)
    ensures
        match r {
            Some(f) => find_runtime(name@, 0) is Some && f@ == runtime_entry(
                find_runtime(name@, 0)->0,
            ),
            None => find_runtime(name@, 0) is None,
        },
{
    let mut i: usize = 0;
    while i < RUNTIME_FUNCTION_COUNT
        invariant
            i <= RUNTIME_FUNCTION_COUNT,
            find_runtime(name@, 0) == find_runtime(name@, i as int),
        decreases RUNTIME_FUNCTION_COUNT - i,
    {
        let f = runtime_function_at(i);
        if same_text(f.name, name) {
            return Some(f);
        }
        i += 1;
    }
    None
}

/// Whether a word call can name this runtime function.
pub fn is_callable(f: &RuntimeFunction) -> (r: bool)
    ensures
        r == callable(f@),
{
    same_text(f.result, "ptr") && same_text(f.params, "ptr")
}

} // verus!
