//! Errors of the effect checker.

use vstd::prelude::*;
use crate::ast::{copy_strings, strings_model};
use crate::ast::types::{
    Effect, EffectModel, Type, TypeModel, copy_effect, copy_type, effect_text, effect_to_text,
    type_text, type_to_text,
};
use crate::text::{decimal, push_decimal};

verus! {

/// Model of a type error.
#[allow(inconsistent_fields)]
pub enum TypeErrorModel {
    UndefinedWord { name: Seq<char> },
    UndefinedType { name: Seq<char> },
    StackUnderflow { word: Seq<char>, required: usize, available: usize },
    TypeMismatch { expected: TypeModel, actual: TypeModel, context: Seq<char> },
    EffectMismatch { expected: EffectModel, actual: EffectModel, word: Seq<char> },
    NonExhaustiveMatch { adt_name: Seq<char>, missing_variants: Seq<Seq<char>> },
    InconsistentBranchEffects {
        adt_name: Seq<char>,
        expected: EffectModel,
        actual: EffectModel,
        branch: Seq<char>,
    },
    Other { message: Seq<char> },
}

/// What the effect checker can find wrong with a program.
#[allow(inconsistent_fields)]
#[derive(Debug, PartialEq)]
pub enum TypeError {
    /// A call names a word that is not known.
    UndefinedWord { name: String },
    /// A pattern match is on a value of a type that is not declared.
    UndefinedType { name: String },
    /// A word needs more elements than the stack holds.
    StackUnderflow { word: String, required: usize, available: usize },
    /// A value has another type than its place asks for.
    TypeMismatch { expected: Type, actual: Type, context: String },
    /// The body of a word leaves another stack than its effect declares.
    EffectMismatch { expected: Effect, actual: Effect, word: String },
    /// A pattern match has no branch for some variants of the type.
    NonExhaustiveMatch { adt_name: String, missing_variants: Vec<String> },
    /// The branches of a pattern match leave stacks that do not unify.
    InconsistentBranchEffects {
        adt_name: String,
        expected: Effect,
        actual: Effect,
        branch: String,
    },
    /// Any other error.
    Other { message: String },
}

/// The result of a checking step.
pub type TypeResult<T> = Result<T, TypeError>;

impl View for TypeError {
    type V = TypeErrorModel;

    open spec fn view(&self) -> TypeErrorModel {
        match self {
            TypeError::UndefinedWord { name } => TypeErrorModel::UndefinedWord { name: name@ },
            TypeError::UndefinedType { name } => TypeErrorModel::UndefinedType { name: name@ },
            TypeError::StackUnderflow { word, required, available } => TypeErrorModel::StackUnderflow {
                word: word@,
                required: *required,
                available: *available,
            },
            TypeError::TypeMismatch { expected, actual, context } => TypeErrorModel::TypeMismatch {
                expected: expected@,
                actual: actual@,
                context: context@,
            },
            TypeError::EffectMismatch { expected, actual, word } => TypeErrorModel::EffectMismatch {
                expected: expected@,
                actual: actual@,
                word: word@,
            },
            TypeError::NonExhaustiveMatch {
                adt_name,
                missing_variants,
            } => TypeErrorModel::NonExhaustiveMatch {
                adt_name: adt_name@,
                missing_variants: strings_model(missing_variants@),
            },
            TypeError::InconsistentBranchEffects {
                adt_name,
                expected,
                actual,
                branch,
            } => TypeErrorModel::InconsistentBranchEffects {
                adt_name: adt_name@,
                expected: expected@,
                actual: actual@,
                branch: branch@,
            },
            TypeError::Other { message } => TypeErrorModel::Other { message: message@ },
        }
    }
}

impl Clone for TypeError {
    fn clone(&self) -> (r: Self)
        ensures
            r@ == self@,
    {
        match self {
            TypeError::UndefinedWord { name } => TypeError::UndefinedWord { name: name.clone() },
            TypeError::UndefinedType { name } => TypeError::UndefinedType { name: name.clone() },
            TypeError::StackUnderflow { word, required, available } => TypeError::StackUnderflow {
                word: word.clone(),
                required: *required,
                available: *available,
            },
            TypeError::TypeMismatch { expected, actual, context } => TypeError::TypeMismatch {
                expected: copy_type(expected),
                actual: copy_type(actual),
                context: context.clone(),
            },
            TypeError::EffectMismatch { expected, actual, word } => TypeError::EffectMismatch {
                expected: copy_effect(expected),
                actual: copy_effect(actual),
                word: word.clone(),
            },
            TypeError::NonExhaustiveMatch {
                adt_name,
                missing_variants,
            } => TypeError::NonExhaustiveMatch {
                adt_name: adt_name.clone(),
                missing_variants: copy_strings(missing_variants),
            },
            TypeError::InconsistentBranchEffects {
                adt_name,
                expected,
                actual,
                branch,
            } => TypeError::InconsistentBranchEffects {
                adt_name: adt_name.clone(),
                expected: copy_effect(expected),
                actual: copy_effect(actual),
                branch: branch.clone(),
            },
            TypeError::Other { message } => TypeError::Other { message: message.clone() },
        }
    }
}

/// The names from position `i` on, written after `acc` and separated by
/// commas.
pub open spec fn names_text(acc: Seq<char>, names: Seq<Seq<char>>, i: int) -> Seq<char>
    decreases names.len() - i,
{
    if i < 0 || i >= names.len() {
        acc
    } else if i == 0 {
        names_text(acc + names[i], names, i + 1)
    } else {
        names_text(acc + ", "@ + names[i], names, i + 1)
    }
}

/// The message that a type error shows to the user.
pub open spec fn type_error_text(e: TypeErrorModel) -> Seq<char> {
    match e {
        TypeErrorModel::UndefinedWord { name } => "Undefined word: "@ + name,
        TypeErrorModel::UndefinedType { name } => "Undefined type: "@ + name,
        TypeErrorModel::StackUnderflow { word, required, available } => "Stack underflow in '"@
            + word + "': required "@ + decimal(required as nat) + ", available "@ + decimal(
            available as nat,
        ),
        TypeErrorModel::TypeMismatch { expected, actual, context } => "Type mismatch in "@
            + context + ": expected "@ + type_text(expected) + ", found "@ + type_text(actual),
        TypeErrorModel::EffectMismatch { expected, actual, word } => "Effect mismatch in '"@ + word
            + "': declared "@ + effect_text(expected) + ", inferred "@ + effect_text(actual),
        TypeErrorModel::NonExhaustiveMatch { adt_name, missing_variants } => names_text(
            "Non-exhaustive match on "@ + adt_name + ": missing "@,
            missing_variants,
            0,
        ),
        TypeErrorModel::InconsistentBranchEffects {
            adt_name,
            expected,
            actual,
            branch,
        } => "Inconsistent branch effects in match on "@ + adt_name + ": "@ + branch + " has "@
            + effect_text(actual) + ", expected "@ + effect_text(expected),
        TypeErrorModel::Other { message } => message,
    }
}

impl TypeError {
    /// The message that the error shows to the user.
    pub fn to_string(&self) -> (r: String)
        ensures
            r@ == type_error_text(self@),
    {
        match self {
            TypeError::UndefinedWord { name } => {
                let mut out = String::from_str("Undefined word: ");
                out.append(name.as_str());
                out
            },
            TypeError::UndefinedType { name } => {
                let mut out = String::from_str("Undefined type: ");
                out.append(name.as_str());
                out
            },
            TypeError::StackUnderflow { word, required, available } => {
                let mut out = String::from_str("Stack underflow in '");
                out.append(word.as_str());
                out.append("': required ");
                push_decimal(&mut out, *required as u128);
                out.append(", available ");
                push_decimal(&mut out, *available as u128);
                out
            },
            TypeError::TypeMismatch { expected, actual, context } => {
                let mut out = String::from_str("Type mismatch in ");
                out.append(context.as_str());
                out.append(": expected ");
                let e = type_to_text(expected);
                out.append(e.as_str());
                out.append(", found ");
                let a = type_to_text(actual);
                out.append(a.as_str());
                out
            },
            TypeError::EffectMismatch { expected, actual, word } => {
                let mut out = String::from_str("Effect mismatch in '");
                out.append(word.as_str());
                out.append("': declared ");
                let e = effect_to_text(expected);
                out.append(e.as_str());
                out.append(", inferred ");
                let a = effect_to_text(actual);
                out.append(a.as_str());
                out
            },
            TypeError::NonExhaustiveMatch { adt_name, missing_variants } => {
                let mut out = String::from_str("Non-exhaustive match on ");
                out.append(adt_name.as_str());
                out.append(": missing ");
                let ghost start = out@;
                let mut i: usize = 0;
                while i < missing_variants.len()
                    invariant
                        i <= missing_variants.len(),
                        names_text(start, strings_model(missing_variants@), 0) == names_text(
                            out@,
                            strings_model(missing_variants@),
                            i as int,
                        ),
                    decreases missing_variants.len() - i,
                {
                    if i > 0 {
                        out.append(", ");
                    }
                    out.append(missing_variants[i].as_str());
                    i += 1;
                }
                out
            },
            TypeError::InconsistentBranchEffects { adt_name, expected, actual, branch } => {
                let mut out = String::from_str("Inconsistent branch effects in match on ");
                out.append(adt_name.as_str());
                out.append(": ");
                out.append(branch.as_str());
                out.append(" has ");
                let a = effect_to_text(actual);
                out.append(a.as_str());
                out.append(", expected ");
                let e = effect_to_text(expected);
                out.append(e.as_str());
                out
            },
            TypeError::Other { message } => message.clone(),
        }
    }
}

} // verus!
