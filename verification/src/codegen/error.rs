//! Errors of code generation.

use vstd::prelude::*;

verus! {

/// Model of a code generation error.
pub enum CodegenErrorModel {
    UnknownWord { name: Seq<char>, location: Option<Seq<char>> },
    LlvmError { operation: Seq<char>, details: Seq<char> },
    VerificationError { message: Seq<char> },
    Unimplemented { feature: Seq<char> },
    InvalidProgram { reason: Seq<char> },
    RuntimeError { function: Seq<char>, reason: Seq<char> },
    InternalError(Seq<char>),
    LinkerError(Seq<char>),
}

/// What can go wrong while code is generated. Every error ends the
/// compilation: no partial text is handed out.
#[derive(Debug, PartialEq)]
pub enum CodegenError {
    /// A call names neither a word of the program nor a runtime primitive.
    UnknownWord { name: String, location: Option<String> },
    /// An operation of the backend failed.
    LlvmError { operation: String, details: String },
    /// The generated module was refused.
    VerificationError { message: String },
    /// The expression form is not lowered yet.
    Unimplemented { feature: String },
    /// The program is not one that code can be generated for.
    InvalidProgram { reason: String },
    /// A runtime function is missing or not declared.
    RuntimeError { function: String, reason: String },
    /// The generator could not go on.
    InternalError(String),
    /// The native backend refused the text.
    LinkerError(String),
}

/// The result of a code generation step.
pub type CodegenResult<T> = Result<T, CodegenError>;

impl View for CodegenError {
    type V = CodegenErrorModel;

    open spec fn view(&self) -> CodegenErrorModel {
        match self {
            CodegenError::UnknownWord { name, location } => CodegenErrorModel::UnknownWord {
                name: name@,
                location: match location {
                    Some(l) => Some(l@),
                    None => None,
                },
            },
            CodegenError::LlvmError { operation, details } => CodegenErrorModel::LlvmError {
                operation: operation@,
                details: details@,
            },
            CodegenError::VerificationError { message } => CodegenErrorModel::VerificationError {
                message: message@,
            },
            CodegenError::Unimplemented { feature } => CodegenErrorModel::Unimplemented {
                feature: feature@,
            },
            CodegenError::InvalidProgram { reason } => CodegenErrorModel::InvalidProgram {
                reason: reason@,
            },
            CodegenError::RuntimeError { function, reason } => CodegenErrorModel::RuntimeError {
                function: function@,
                reason: reason@,
            },
            CodegenError::InternalError(message) => CodegenErrorModel::InternalError(message@),
            CodegenError::LinkerError(message) => CodegenErrorModel::LinkerError(message@),
        }
    }
}

impl Clone for CodegenError {
    fn clone(&self) -> (r: Self)
        ensures
            r@ == self@,
    {
        match self {
            CodegenError::UnknownWord { name, location } => CodegenError::UnknownWord {
                name: name.clone(),
                location: match location {
                    Some(l) => Some(l.clone()),
                    None => None,
                },
            },
            CodegenError::LlvmError { operation, details } => CodegenError::LlvmError {
                operation: operation.clone(),
                details: details.clone(),
            },
            CodegenError::VerificationError { message } => CodegenError::VerificationError {
                message: message.clone(),
            },
            CodegenError::Unimplemented { feature } => CodegenError::Unimplemented {
                feature: feature.clone(),
            },
            CodegenError::InvalidProgram { reason } => CodegenError::InvalidProgram {
                reason: reason.clone(),
            },
            CodegenError::RuntimeError { function, reason } => CodegenError::RuntimeError {
                function: function.clone(),
                reason: reason.clone(),
            },
            CodegenError::InternalError(message) => CodegenError::InternalError(message.clone()),
            CodegenError::LinkerError(message) => CodegenError::LinkerError(message.clone()),
        }
    }
}

/// The message that an error shows to the user.
pub open spec fn error_text(e: CodegenErrorModel) -> Seq<char> {
    match e {
        CodegenErrorModel::UnknownWord { name, location } => match location {
            Some(l) => "Unknown word: "@ + name + " at "@ + l,
            None => "Unknown word: "@ + name,
        },
        CodegenErrorModel::LlvmError { operation, details } => "LLVM error during "@ + operation
            + ": "@ + details,
        CodegenErrorModel::VerificationError { message } => "Module verification failed: "@
            + message,
        CodegenErrorModel::Unimplemented { feature } => "Feature not yet implemented: "@ + feature,
        CodegenErrorModel::InvalidProgram { reason } => "Invalid program: "@ + reason,
        CodegenErrorModel::RuntimeError { function, reason } => "Runtime function '"@ + function
            + "': "@ + reason,
        CodegenErrorModel::InternalError(message) => "Internal error: "@ + message,
        CodegenErrorModel::LinkerError(message) => "Linker error: "@ + message,
    }
}

impl CodegenError {
    /// The message that the error shows to the user.
    pub fn to_string(&self) -> (r: String)
        ensures
            r@ == error_text(self@),
    {
        match self {
            CodegenError::UnknownWord { name, location } => {
                let mut out = String::from_str("Unknown word: ");
                out.append(name.as_str());
                match location {
                    Some(l) => {
                        out.append(" at ");
                        out.append(l.as_str());
                    },
                    None => {},
                }
                out
            },
            CodegenError::LlvmError { operation, details } => {
                let mut out = String::from_str("LLVM error during ");
                out.append(operation.as_str());
                out.append(": ");
                out.append(details.as_str());
                out
            },
            CodegenError::VerificationError { message } => {
                let mut out = String::from_str("Module verification failed: ");
                out.append(message.as_str());
                out
            },
            CodegenError::Unimplemented { feature } => {
                let mut out = String::from_str("Feature not yet implemented: ");
                out.append(feature.as_str());
                out
            },
            CodegenError::InvalidProgram { reason } => {
                let mut out = String::from_str("Invalid program: ");
                out.append(reason.as_str());
                out
            },
            CodegenError::RuntimeError { function, reason } => {
                let mut out = String::from_str("Runtime function '");
                out.append(function.as_str());
                out.append("': ");
                out.append(reason.as_str());
                out
            },
            CodegenError::InternalError(message) => {
                let mut out = String::from_str("Internal error: ");
                out.append(message.as_str());
                out
            },
            CodegenError::LinkerError(message) => {
                let mut out = String::from_str("Linker error: ");
                out.append(message.as_str());
                out
            },
        }
    }
}

} // verus!
