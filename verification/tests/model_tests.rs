use cem::ast::types::{copy_types, same_effect, same_stack, same_type, same_types, Effect, StackType, Type};
use cem::ast::{
    copy_strings, find_variant_index, Expr, MatchBranch, Pattern, Program, SourceLoc, TypeDef,
    Variant, WordDef,
};
use cem::codegen::primitives::{is_primitive, runtime_name};
use cem::codegen::runtime::{
    is_callable, lookup_runtime_function, runtime_function_at, runtime_functions,
    RUNTIME_FUNCTION_COUNT,
};
use cem::codegen::callee_of;
use cem::codegen::{CodeGen, CodegenError};
use cem::driver::{choose_entry_word, compile_checked, compile_source, CompileError};
use cem::parser::{ParseError, Parser};
use cem::typechecker::TypeError;
use cem::text::{chars_of, decimal_text, escape_name_range, escape_range, same_text};

fn here() -> SourceLoc {
    SourceLoc::unknown()
}

fn named(name: &str, args: Vec<Type>) -> Type {
    Type::Named {
        name: name.to_string(),
        args,
    }
}

fn word(name: &str) -> WordDef {
    WordDef {
        name: name.to_string(),
        effect: Effect::new(StackType::Empty, StackType::Empty),
        body: vec![],
        loc: here(),
    }
}

#[test]
fn decimal_numerals() {
    assert_eq!(decimal_text(0), "0");
    assert_eq!(decimal_text(7), "7");
    assert_eq!(decimal_text(10), "10");
    assert_eq!(decimal_text(1234567890), "1234567890");
    assert_eq!(decimal_text(usize::MAX), usize::MAX.to_string());
}

#[test]
fn escaped_ranges_of_bytes() {
    let bytes = "a/b\"c\\".as_bytes();
    assert_eq!(escape_range(bytes, 0, 6), "a/b\\22c\\5C");
    assert_eq!(escape_range(bytes, 2, 4), "b\\22");
    assert_eq!(escape_range(bytes, 3, 3), "");
    assert_eq!(escape_range(&[0x1f, 0x20, 0x7e, 0x7f, 0xff], 0, 5), "\\1F ~\\7F\\FF");
}

#[test]
fn escaped_ranges_of_the_bytes_of_file_names() {
    let bytes = "a/b\"c\\".as_bytes();
    assert_eq!(escape_name_range(bytes, 0, 6), "a/b\\\"c\\\\");
    assert_eq!(escape_name_range(bytes, 2, 4), "b\\\"");
    assert_eq!(escape_name_range(bytes, 3, 3), "");
    assert_eq!(
        escape_name_range(&[0x1f, 0x20, 0x7e, 0x7f, 0xff], 0, 5),
        "\\1F ~\\7F\\FF"
    );
}

#[test]
fn texts_are_compared_by_their_characters() {
    assert!(same_text("", ""));
    assert!(same_text("héllo", "héllo"));
    assert!(!same_text("a", "b"));
    assert!(!same_text("a", "ab"));
    assert!(!same_text("ab", "a"));
    assert_eq!(chars_of("aé😀"), vec!['a', 'é', '😀']);
    assert_eq!(chars_of(""), Vec::<char>::new());
}

#[test]
fn stack_operations() {
    let empty = StackType::empty();
    assert_eq!(empty, StackType::Empty);
    assert!(empty.is_empty());
    assert_eq!(empty.depth(), Some(0));
    assert_eq!(empty.pop(), None);
    let two = empty.push(Type::Int).push(Type::Bool);
    assert!(!two.is_empty());
    assert_eq!(two.depth(), Some(2));
    assert_eq!(two.pop(), Some((StackType::Empty.push(Type::Int), Type::Bool)));
    assert_eq!(StackType::from_vec(vec![Type::Int, Type::Bool]), two);
    assert_eq!(StackType::from_vec(vec![]), StackType::Empty);
    let open = StackType::RowVar("r".to_string());
    assert!(!open.is_empty());
    assert_eq!(open.depth(), None);
    assert_eq!(open.pop(), None);
    assert_eq!(open.clone().push(Type::Int).depth(), None);
    assert_eq!(
        open.clone().push(Type::Int).pop(),
        Some((open, Type::Int))
    );
}

#[test]
fn effects_from_lists() {
    let effect = Effect::from_vecs(vec![Type::Int, Type::Bool], vec![Type::String]);
    assert_eq!(effect.inputs, StackType::Empty.push(Type::Int).push(Type::Bool));
    assert_eq!(effect.outputs, StackType::Empty.push(Type::String));
    assert_eq!(
        Effect::new(StackType::Empty, StackType::Empty),
        Effect::from_vecs(vec![], vec![])
    );
}

#[test]
fn copies_are_equal_to_what_they_copy() {
    let t = named(
        "Pair",
        vec![
            Type::Var("A".to_string()),
            Type::Quotation(Box::new(Effect::from_vecs(vec![Type::Int], vec![Type::Bool]))),
        ],
    );
    assert_eq!(t.clone(), t);
    let s = StackType::RowVar("r".to_string()).push(t.clone()).push(Type::String);
    assert_eq!(s.clone(), s);
    let e = Effect::new(s.clone(), StackType::Empty);
    assert_eq!(e.clone(), e);
    assert_eq!(copy_types(&vec![t.clone(), Type::Int]), vec![t.clone(), Type::Int]);
    assert_eq!(
        copy_strings(&vec!["a".to_string(), "b".to_string()]),
        vec!["a".to_string(), "b".to_string()]
    );
    let expr = Expr::If {
        then_branch: Box::new(Expr::Quotation(
            vec![Expr::Match {
                branches: vec![MatchBranch {
                    pattern: Pattern::Variant {
                        name: "Some".to_string(),
                    },
                    body: vec![Expr::StringLit("s".to_string(), here())],
                }],
                loc: here(),
            }],
            here(),
        )),
        else_branch: Box::new(Expr::While {
            condition: Box::new(Expr::BoolLit(true, here())),
            body: Box::new(Expr::WordCall("w".to_string(), here())),
            loc: SourceLoc::new(3, 4, "f".to_string()),
        }),
        loc: here(),
    };
    assert_eq!(expr.clone(), expr);
    let program = Program {
        type_defs: vec![TypeDef {
            name: "T".to_string(),
            type_params: vec!["A".to_string()],
            variants: vec![Variant {
                name: "V".to_string(),
                fields: vec![t.clone()],
            }],
        }],
        word_defs: vec![WordDef {
            name: "w".to_string(),
            effect: e,
            body: vec![expr, Expr::IntLit(1, here())],
            loc: here(),
        }],
    };
    assert_eq!(program.clone(), program);
    assert_eq!(program.type_defs[0].clone(), program.type_defs[0]);
    assert_eq!(program.type_defs[0].variants[0].clone(), program.type_defs[0].variants[0]);
    assert_eq!(program.word_defs[0].clone(), program.word_defs[0]);
}

#[test]
fn sameness_of_types() {
    let a = named("P", vec![Type::Int, Type::Var("A".to_string())]);
    let b = named("P", vec![Type::Int, Type::Var("B".to_string())]);
    assert!(same_type(&a, &a.clone()));
    assert!(!same_type(&a, &b));
    assert!(!same_type(&Type::Int, &Type::Bool));
    assert!(!same_type(&named("P", vec![]), &named("P", vec![Type::Int])));
    assert!(same_types(&vec![], &vec![]));
    assert!(!same_types(&vec![Type::Int], &vec![]));
    let s = StackType::Empty.push(a.clone());
    assert!(same_stack(&s, &s.clone()));
    assert!(!same_stack(&s, &StackType::Empty));
    assert!(!same_stack(&StackType::Empty, &StackType::RowVar("r".to_string())));
    assert!(!same_stack(
        &StackType::RowVar("r".to_string()).push(Type::Int),
        &StackType::Empty.push(Type::Int)
    ));
    assert!(same_stack(
        &StackType::RowVar("r".to_string()),
        &StackType::RowVar("r".to_string())
    ));
    let e = Effect::new(s.clone(), StackType::Empty);
    assert!(same_effect(&e, &e.clone()));
    assert!(!same_effect(&e, &Effect::new(StackType::Empty, s)));
    let q = Type::Quotation(Box::new(e.clone()));
    assert!(same_type(&q, &q.clone()));
    assert!(!same_type(
        &q,
        &Type::Quotation(Box::new(Effect::new(StackType::Empty, StackType::Empty)))
    ));
}

#[test]
fn how_types_and_effects_are_written() {
    assert_eq!(Type::Int.to_string(), "Int");
    assert_eq!(Type::Bool.to_string(), "Bool");
    assert_eq!(Type::String.to_string(), "String");
    assert_eq!(Type::Var("a".to_string()).to_string(), "a");
    assert_eq!(named("Unit", vec![]).to_string(), "Unit");
    assert_eq!(
        named("Pair", vec![Type::Int, named("Option", vec![Type::Bool])]).to_string(),
        "Pair(Int Option(Bool))"
    );
    assert_eq!(StackType::Empty.to_string(), "");
    assert_eq!(
        StackType::RowVar("r".to_string()).push(Type::Int).to_string(),
        "r Int "
    );
    let effect = Effect::from_vecs(vec![Type::Int, Type::Int], vec![Type::Bool]);
    assert_eq!(effect.to_string(), "( Int Int -- Bool )");
    assert_eq!(
        Type::Quotation(Box::new(effect)).to_string(),
        "[( Int Int -- Bool )]"
    );
}

#[test]
fn how_expressions_are_written() {
    assert_eq!(Expr::IntLit(-7, here()).to_string(), "-7");
    assert_eq!(Expr::BoolLit(true, here()).to_string(), "true");
    assert_eq!(Expr::BoolLit(false, here()).to_string(), "false");
    assert_eq!(Expr::StringLit("s".to_string(), here()).to_string(), "\"s\"");
    assert_eq!(Expr::WordCall("dup".to_string(), here()).to_string(), "dup");
    let quotation = Expr::Quotation(
        vec![
            Expr::IntLit(1, here()),
            Expr::Quotation(vec![], here()),
            Expr::WordCall("+".to_string(), here()),
        ],
        here(),
    );
    assert_eq!(quotation.to_string(), "[ 1 [ ] + ]");
    let matching = Expr::Match {
        branches: vec![
            MatchBranch {
                pattern: Pattern::Variant {
                    name: "Some".to_string(),
                },
                body: vec![],
            },
            MatchBranch {
                pattern: Pattern::Variant {
                    name: "None".to_string(),
                },
                body: vec![Expr::IntLit(0, here())],
            },
        ],
        loc: here(),
    };
    assert_eq!(
        matching.to_string(),
        "match\n  Variant { name: \"Some\" } => [ ... ]\n  Variant { name: \"None\" } => [ ... ]\nend"
    );
    let conditional = Expr::If {
        then_branch: Box::new(quotation.clone()),
        else_branch: Box::new(quotation.clone()),
        loc: here(),
    };
    assert_eq!(conditional.to_string(), "if");
    let spin = Expr::While {
        condition: Box::new(quotation.clone()),
        body: Box::new(quotation),
        loc: here(),
    };
    assert_eq!(spin.to_string(), "while");
}

#[test]
fn variants_are_found_by_name() {
    let variants = vec![
        Variant {
            name: "A".to_string(),
            fields: vec![],
        },
        Variant {
            name: "B".to_string(),
            fields: vec![],
        },
        Variant {
            name: "A".to_string(),
            fields: vec![Type::Int],
        },
    ];
    assert_eq!(find_variant_index(&variants, "A"), Some(0));
    assert_eq!(find_variant_index(&variants, "B"), Some(1));
    assert_eq!(find_variant_index(&variants, "C"), None);
}

#[test]
fn built_in_operations_and_their_runtime_functions() {
    let expected = [
        ("dup", "dup"),
        ("drop", "drop"),
        ("swap", "swap"),
        ("over", "over"),
        ("rot", "rot"),
        ("+", "add"),
        ("-", "subtract"),
        ("*", "multiply"),
        ("/", "divide"),
        ("<", "less_than"),
        (">", "greater_than"),
        ("=", "equal"),
        ("call", "call_quotation"),
        ("if", "if_then_else"),
    ];
    for (name, target) in expected {
        assert!(is_primitive(name));
        assert_eq!(runtime_name(name), Some(target));
    }
    for name in ["add", "", "dup ", "DUP", "custom_word"] {
        assert!(!is_primitive(name));
        assert_eq!(runtime_name(name), None);
    }
}

#[test]
fn list_of_runtime_functions() {
    let all = runtime_functions();
    assert_eq!(all.len(), RUNTIME_FUNCTION_COUNT);
    assert_eq!(all.len(), 24);
    assert_eq!(all[0], runtime_function_at(0));
    assert_eq!(all[0].name, "dup");
    assert_eq!(all[0].description, "Duplicate top stack element");
    assert_eq!(all[23].name, "runtime_error");
    assert_eq!(all[23].result, "void");
    for (i, f) in all.iter().enumerate() {
        assert_eq!(lookup_runtime_function(f.name), Some(runtime_function_at(i)));
    }
    assert_eq!(lookup_runtime_function("if_then_else"), None);
    let callable: Vec<&str> = all.iter().filter(|f| is_callable(f)).map(|f| f.name).collect();
    assert_eq!(
        callable,
        vec![
            "dup",
            "drop",
            "swap",
            "over",
            "rot",
            "add",
            "subtract",
            "multiply",
            "divide",
            "less_than",
            "greater_than",
            "equal",
            "call_quotation",
            "string_length",
            "string_concat",
            "string_equal",
            "test_yield",
        ]
    );
}

#[test]
fn what_a_call_reaches() {
    let program = Program {
        type_defs: vec![],
        word_defs: vec![word("mine"), word("+"), word("push_int")],
    };
    assert_eq!(callee_of(&program, "mine"), Some("mine".to_string()));
    // A word of the program comes before a built-in operation of the same name.
    assert_eq!(callee_of(&program, "+"), Some("+".to_string()));
    assert_eq!(callee_of(&program, "push_int"), Some("push_int".to_string()));
    assert_eq!(callee_of(&program, "-"), Some("subtract".to_string()));
    assert_eq!(callee_of(&program, "subtract"), Some("subtract".to_string()));
    assert_eq!(callee_of(&program, "call"), Some("call_quotation".to_string()));
    assert_eq!(callee_of(&program, "if"), None);
    assert_eq!(callee_of(&program, "free_stack"), None);
    assert_eq!(callee_of(&program, "other"), None);
}

#[test]
fn entry_word_of_a_program() {
    let with = |names: &[&str]| Program {
        type_defs: vec![],
        word_defs: names.iter().map(|n| word(n)).collect(),
    };
    assert_eq!(choose_entry_word(&with(&[])), None);
    assert_eq!(choose_entry_word(&with(&["only"])), Some("only".to_string()));
    assert_eq!(choose_entry_word(&with(&["a", "b"])), None);
    assert_eq!(choose_entry_word(&with(&["a", "main", "b"])), Some("main".to_string()));
    assert_eq!(choose_entry_word(&with(&["main"])), Some("main".to_string()));
}

#[test]
fn source_is_parsed_checked_and_compiled() {
    let source = ": square ( Int -- Int ) dup * ;\n: main ( -- Int ) 6 square ;\n";
    let ir = compile_source(source, "demo.cem").unwrap();
    // The same text as the three steps give one after the other.
    let program = Parser::new_with_filename(source, "demo.cem").parse().unwrap();
    let by_hand = CodeGen::new()
        .compile_program_with_main(&program, Some("main"))
        .unwrap();
    assert_eq!(ir, by_hand);
    assert!(ir.contains("define ptr @square(ptr %stack) !dbg !1 {\nentry:\n  %0 = call ptr @dup(ptr %stack), !dbg !2\n  %1 = musttail call ptr @multiply(ptr %0), !dbg !3\n  ret ptr %1\n}\n"));
    assert!(ir.contains("  %stack = call ptr @main(ptr null)\n"));
    assert!(ir.contains("!0 = !DIFile(filename: \"demo.cem\", directory: \"\")\n"));
}

#[test]
fn only_word_of_a_program_is_its_entry() {
    let ir = compile_source(": five ( -- Int ) 5 ;", "f.cem").unwrap();
    assert!(ir.contains("  %stack = call ptr @five(ptr null)\n"));
}

#[test]
fn compilation_stops_at_the_first_step_that_fails() {
    assert_eq!(
        compile_source(": five ( -- Int 5 ;", "f.cem"),
        Err(CompileError::Parse(ParseError {
            message: "Expected type name".to_string(),
            line: 1,
            column: 17
        }))
    );
    assert_eq!(
        compile_source(": five ( -- Int ) true ;", "f.cem"),
        Err(CompileError::Type(TypeError::EffectMismatch {
            expected: cem::ast::types::Effect::from_vecs(vec![], vec![Type::Int]),
            actual: cem::ast::types::Effect::from_vecs(vec![], vec![Type::Bool]),
            word: "five".to_string(),
        }))
    );
    assert_eq!(
        compile_source(": a ( -- ) ; : b ( -- ) ;", "f.cem"),
        Err(CompileError::NoEntryWord)
    );
    assert_eq!(compile_source("", "f.cem"), Err(CompileError::NoEntryWord));
    assert_eq!(
        compile_source(": spin ( -- ) while [ true ] [ ] ;", "f.cem"),
        Err(CompileError::Codegen(CodegenError::Unimplemented {
            feature: "while loops".to_string()
        }))
    );
    // A call inside a quotation is not looked at by the effect check.
    assert_eq!(
        compile_source(": q ( -- ) [ nowhere ] drop ;", "f.cem"),
        Err(CompileError::Codegen(CodegenError::UnknownWord {
            name: "nowhere".to_string(),
            location: None
        }))
    );
}

#[test]
fn program_is_checked_before_it_is_compiled() {
    let good = Parser::new(": five ( -- Int ) 5 ;").parse().unwrap();
    let ir = compile_checked(&good, None).unwrap();
    assert_eq!(ir, CodeGen::new().compile_program(&good).unwrap());
    let bad = Parser::new(": five ( -- Int ) nowhere ;").parse().unwrap();
    assert_eq!(
        compile_checked(&bad, None),
        Err(CompileError::Type(TypeError::UndefinedWord {
            name: "nowhere".to_string()
        }))
    );
    assert_eq!(
        compile_checked(&good, Some("six")),
        Err(CompileError::Codegen(CodegenError::UnknownWord {
            name: "six".to_string(),
            location: None
        }))
    );
}

#[test]
fn every_compile_error_has_its_text() {
    assert_eq!(
        CompileError::Parse(ParseError {
            message: "m".to_string(),
            line: 2,
            column: 3
        })
        .to_string(),
        "Parse error at 2:3: m"
    );
    assert_eq!(
        CompileError::Type(TypeError::UndefinedWord {
            name: "w".to_string()
        })
        .to_string(),
        "Type error: Undefined word: w"
    );
    assert_eq!(
        CompileError::NoEntryWord.to_string(),
        "No 'main' word found and multiple words defined"
    );
    assert_eq!(
        CompileError::Codegen(CodegenError::InternalError("i".to_string())).to_string(),
        "Internal error: i"
    );
}

#[test]
fn errors_are_copied_as_they_are() {
    let effect = cem::ast::types::Effect::from_vecs(vec![Type::Int], vec![]);
    let type_errors = vec![
        TypeError::UndefinedWord {
            name: "w".to_string(),
        },
        TypeError::UndefinedType {
            name: "T".to_string(),
        },
        TypeError::StackUnderflow {
            word: "w".to_string(),
            required: 2,
            available: 1,
        },
        TypeError::TypeMismatch {
            expected: Type::Bool,
            actual: Type::Int,
            context: "c".to_string(),
        },
        TypeError::EffectMismatch {
            expected: effect.clone(),
            actual: effect.clone(),
            word: "w".to_string(),
        },
        TypeError::NonExhaustiveMatch {
            adt_name: "T".to_string(),
            missing_variants: vec!["A".to_string(), "B".to_string()],
        },
        TypeError::InconsistentBranchEffects {
            adt_name: "T".to_string(),
            expected: effect.clone(),
            actual: effect,
            branch: "branch 1".to_string(),
        },
        TypeError::Other {
            message: "m".to_string(),
        },
    ];
    for e in &type_errors {
        assert_eq!(&e.clone(), e);
        assert_eq!(CompileError::Type(e.clone()).clone(), CompileError::Type(e.clone()));
    }
    let codegen_errors = vec![
        CodegenError::UnknownWord {
            name: "w".to_string(),
            location: Some("line 1".to_string()),
        },
        CodegenError::UnknownWord {
            name: "w".to_string(),
            location: None,
        },
        CodegenError::LlvmError {
            operation: "o".to_string(),
            details: "d".to_string(),
        },
        CodegenError::VerificationError {
            message: "m".to_string(),
        },
        CodegenError::Unimplemented {
            feature: "f".to_string(),
        },
        CodegenError::InvalidProgram {
            reason: "r".to_string(),
        },
        CodegenError::RuntimeError {
            function: "f".to_string(),
            reason: "r".to_string(),
        },
        CodegenError::InternalError("i".to_string()),
        CodegenError::LinkerError("l".to_string()),
    ];
    for e in &codegen_errors {
        assert_eq!(&e.clone(), e);
        assert_eq!(
            CompileError::Codegen(e.clone()).clone(),
            CompileError::Codegen(e.clone())
        );
    }
    assert_eq!(CompileError::NoEntryWord.clone(), CompileError::NoEntryWord);
}
