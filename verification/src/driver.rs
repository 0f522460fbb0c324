//! The way from source text to IR text: the source is parsed, the
//! program is checked, and only a program that passed the effect check is
//! compiled.

use vstd::prelude::*;
use crate::ast::{Program, ProgramModel};
use crate::codegen::CodeGen;
use crate::codegen::error::{CodegenError, CodegenErrorModel, error_text};
use crate::codegen::model::{compile, fresh, has_word};
use crate::parser::grammar::{ParseErrorModel, empty_program, parse_error_text, program_from};
use crate::parser::lexer::tokens_of;
use crate::parser::parser::{ParseError, Parser};
use crate::text::same_text;
use crate::typechecker::checker::TypeChecker;
use crate::typechecker::environment::builtin_env;
use crate::typechecker::errors::{TypeError, TypeErrorModel, type_error_text};
use crate::typechecker::rules::check_program;

verus! {

/// Model of an error on the way from source text to IR text.
pub enum CompileErrorModel {
    Parse(ParseErrorModel),
    Type(TypeErrorModel),
    NoEntryWord,
    Codegen(CodegenErrorModel),
}

/// What can go wrong between source text and IR text.
#[derive(Debug, PartialEq)]
pub enum CompileError {
    /// The source text is no program.
    Parse(ParseError),
    /// The program does not pass the effect check.
    Type(TypeError),
    /// The program has no word to start with.
    NoEntryWord,
    /// The program cannot be compiled.
    Codegen(CodegenError),
}

impl View for CompileError {
    type V = CompileErrorModel;

    open spec fn view(&self) -> CompileErrorModel {
        match self {
            CompileError::Parse(e) => CompileErrorModel::Parse(e@),
            CompileError::Type(e) => CompileErrorModel::Type(e@),
            CompileError::NoEntryWord => CompileErrorModel::NoEntryWord,
            CompileError::Codegen(e) => CompileErrorModel::Codegen(e@),
        }
    }
}

impl Clone for CompileError {
    fn clone(&self) -> (r: Self)
        ensures
            r@ == self@,
    {
        match self {
            CompileError::Parse(e) => CompileError::Parse(e.clone()),
            CompileError::Type(e) => CompileError::Type(e.clone()),
            CompileError::NoEntryWord => CompileError::NoEntryWord,
            CompileError::Codegen(e) => CompileError::Codegen(e.clone()),
        }
    }
}

/// The message that such an error shows to the user.
pub open spec fn compile_error_text(e: CompileErrorModel) -> Seq<char> {
    match e {
        CompileErrorModel::Parse(e) => parse_error_text(e),
        CompileErrorModel::Type(e) => "Type error: "@ + type_error_text(e),
        CompileErrorModel::NoEntryWord => "No 'main' word found and multiple words defined"@,
        CompileErrorModel::Codegen(e) => error_text(e),
    }
}

impl CompileError {
    /// The message that the error shows to the user.
    pub fn to_string(&self) -> (r: String)
        ensures
            r@ == compile_error_text(self@),
    {
        match self {
            CompileError::Parse(e) => e.to_string(),
            CompileError::Type(e) => {
                let mut out = String::from_str("Type error: ");
                let inner = e.to_string();
                out.append(inner.as_str());
                out
            },
            CompileError::NoEntryWord => String::from_str(
                "No 'main' word found and multiple words defined",
            ),
            CompileError::Codegen(e) => e.to_string(),
        }
    }
}

/// The word that a program starts with: the word `main` where the program
/// defines one, or else the only word of a program with one word. A
/// program without `main` and with no word or several words has none.
pub open spec fn entry_of(p: ProgramModel) -> Option<Seq<char>> {
    if has_word(p.word_defs, "main"@, 0) {
        Some("main"@)
    } else if p.word_defs.len() == 1 {
        Some(p.word_defs[0].name)
    } else {
        None
    }
}

/// The text of a program that passes the effect check: the program is
/// checked by a new effect checker, and only then compiled by a new
/// generator.
pub open spec fn checked_text(p: ProgramModel, entry: Option<Seq<char>>) -> Result<
    Seq<char>,
    CompileErrorModel,
> {
    match check_program(builtin_env(), p) {
        Err(e) => Err(CompileErrorModel::Type(e)),
        Ok(env) => match compile(p, fresh(), entry) {
            Err(e) => Err(CompileErrorModel::Codegen(e)),
            Ok((g, ir)) => Ok(ir),
        },
    }
}

/// The text of the program that a source text holds: the source is parsed,
/// the program is checked, its entry word is chosen, and the program is
/// compiled with an entry function that runs that word.
pub open spec fn source_text(source: Seq<char>, file: Seq<char>) -> Result<
    Seq<char>,
    CompileErrorModel,
> {
    match program_from(tokens_of(source), file, 0, empty_program()) {
        Err(e) => Err(CompileErrorModel::Parse(e)),
        Ok(p) => match check_program(builtin_env(), p) {
            Err(e) => Err(CompileErrorModel::Type(e)),
            Ok(env) => match entry_of(p) {
                None => Err(CompileErrorModel::NoEntryWord),
                Some(entry) => match compile(p, fresh(), Some(entry)) {
                    Err(e) => Err(CompileErrorModel::Codegen(e)),
                    Ok((g, ir)) => Ok(ir),
                },
            },
        },
    }
}

/// The outcome of a compilation as its definition states it.
pub open spec fn text_or_error(r: Result<String, CompileError>) -> Result<
    Seq<char>,
    CompileErrorModel,
> {
    match r {
        Ok(ir) => Ok(ir@),
        Err(e) => Err(e@),
    }
}

/// The word that a program starts with.
pub fn choose_entry_word(program: &Program) -> (r: Option<String>)
    ensures
        match r {
            Some(name) => entry_of(program@) == Some(name@),
            None => entry_of(program@) is None,
        },
{
    let mut i: usize = 0;
    while i < program.word_defs.len()
        invariant
            i <= program.word_defs.len(),
            has_word(program@.word_defs, "main"@, 0) == has_word(
                program@.word_defs,
                "main"@,
                i as int,
            ),
        decreases program.word_defs.len() - i,
    {
        if same_text(program.word_defs[i].name.as_str(), "main") {
            return Some(String::from_str("main"));
        }
        i += 1;
    }
    if program.word_defs.len() == 1 {
        Some(program.word_defs[0].name.clone())
    } else {
        None
    }
}

/// Checks a program and, if it passes, compiles it. With `entry_word`, the
/// text ends with an entry function that runs that word.
pub fn compile_checked(program: &Program, entry_word: Option<&str>) -> (r: Result<
    String,
    CompileError,
>)
    ensures
        text_or_error(r) == checked_text(program@, crate::codegen::name_of(entry_word)),
{
    let mut checker = TypeChecker::new();
    match checker.check_program(program) {
        Ok(_) => {},
        Err(e) => {
            return Err(CompileError::Type(e));
        },
    }
    let mut codegen = CodeGen::new();
    match codegen.compile_program_with_main(program, entry_word) {
        Ok(ir) => Ok(ir),
        Err(e) => Err(CompileError::Codegen(e)),
    }
}

/// Compiles the source text of the named file: parses it, checks the
/// program, chooses its entry word, and compiles it with an entry function
/// that runs that word.
pub fn compile_source(source: &str, file: &str) -> (r: Result<String, CompileError>)
    ensures
        text_or_error(r) == source_text(source@, file@),
{
    let mut parser = Parser::new_with_filename(source, file);
    let program = match parser.parse() {
        Ok(p) => p,
        Err(e) => {
            return Err(CompileError::Parse(e));
        },
    };
    let mut checker = TypeChecker::new();
    match checker.check_program(&program) {
        Ok(_) => {},
        Err(e) => {
            return Err(CompileError::Type(e));
        },
    }
    let entry = match choose_entry_word(&program) {
        Some(name) => name,
        None => {
            return Err(CompileError::NoEntryWord);
        },
    };
    let mut codegen = CodeGen::new();
    match codegen.compile_program_with_main(&program, Some(entry.as_str())) {
        Ok(ir) => Ok(ir),
        Err(e) => Err(CompileError::Codegen(e)),
    }
}

} // verus!
