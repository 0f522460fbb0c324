use cem::ast::types::{Effect, StackType, Type};
use cem::ast::{Expr, MatchBranch, Pattern, Program, SourceLoc, TypeDef, Variant, WordDef};
use cem::codegen::{CodeGen, CodegenError};

fn here() -> SourceLoc {
    SourceLoc::unknown()
}

fn word(name: &str, body: Vec<Expr>) -> WordDef {
    WordDef {
        name: name.to_string(),
        effect: Effect {
            inputs: StackType::Empty,
            outputs: StackType::Empty.push(Type::Int),
        },
        body,
        loc: here(),
    }
}

fn program(words: Vec<WordDef>) -> Program {
    Program {
        type_defs: vec![],
        word_defs: words,
    }
}

fn call(name: &str) -> Expr {
    Expr::WordCall(name.to_string(), here())
}

fn num(n: i64) -> Expr {
    Expr::IntLit(n, here())
}

fn quote(body: Vec<Expr>) -> Expr {
    Expr::Quotation(body, here())
}

fn cond(then_body: Vec<Expr>, else_body: Vec<Expr>) -> Expr {
    Expr::If {
        then_branch: Box::new(quote(then_body)),
        else_branch: Box::new(quote(else_body)),
        loc: here(),
    }
}

fn option_type() -> TypeDef {
    TypeDef {
        name: "Option".to_string(),
        type_params: vec!["T".to_string()],
        variants: vec![
            Variant {
                name: "Some".to_string(),
                fields: vec![Type::Var("T".to_string())],
            },
            Variant {
                name: "None".to_string(),
                fields: vec![],
            },
        ],
    }
}

fn branch(name: &str, body: Vec<Expr>) -> MatchBranch {
    MatchBranch {
        pattern: Pattern::Variant {
            name: name.to_string(),
        },
        body,
    }
}

fn count(text: &str, part: &str) -> usize {
    text.matches(part).count()
}

const DECLARATIONS: &str = "; Runtime function declarations\n\
declare ptr @dup(ptr)\n\
declare ptr @drop(ptr)\n\
declare ptr @swap(ptr)\n\
declare ptr @over(ptr)\n\
declare ptr @rot(ptr)\n\
declare ptr @add(ptr)\n\
declare ptr @subtract(ptr)\n\
declare ptr @multiply(ptr)\n\
declare ptr @divide(ptr)\n\
declare ptr @less_than(ptr)\n\
declare ptr @greater_than(ptr)\n\
declare ptr @equal(ptr)\n\
declare ptr @push_int(ptr, i64)\n\
declare ptr @push_bool(ptr, i1)\n\
declare ptr @push_string(ptr, ptr)\n\
declare ptr @push_quotation(ptr, ptr)\n\
declare ptr @call_quotation(ptr)\n\
declare ptr @string_length(ptr)\n\
declare ptr @string_concat(ptr)\n\
declare ptr @string_equal(ptr)\n\
declare ptr @test_yield(ptr)\n\
declare void @print_stack(ptr)\n\
declare void @free_stack(ptr)\n\
declare void @runtime_error(ptr)\n\
\n";

#[test]
fn whole_text_of_a_small_program() {
    let mut codegen = CodeGen::new();
    let ir = codegen
        .compile_program(&program(vec![word("five", vec![num(5)])]))
        .unwrap();
    let expected = format!(
        "{}{}{}",
        "; Cem Compiler - Generated LLVM IR\n\n",
        DECLARATIONS,
        "; Debug Information\n\
\n\
!0 = !DIFile(filename: \"<unknown>\", directory: \"\")\n\
\n\
define ptr @five(ptr %stack) !dbg !1 {\n\
entry:\n\
\x20 %0 = call ptr @push_int(ptr %stack, i64 5), !dbg !2\n\
\x20 ret ptr %0\n\
}\n\
\n\
; Debug Info Compile Unit\n\
!3 = distinct !DICompileUnit(language: DW_LANG_C, file: !0, producer: \"Cem Compiler\", isOptimized: false, runtimeVersion: 0, emissionKind: FullDebug)\n\
\n\
; DISubprogram metadata for each word\n\
!1 = distinct !DISubprogram(name: \"five\", scope: !0, file: !0, line: 0, type: !4, scopeLine: 0, flags: DIFlagPrototyped, spFlags: DISPFlagDefinition, unit: !3)\n\
\n\
; Type metadata (stubs)\n\
!4 = !DISubroutineType(types: !{})\n\
\n\
; DILocation metadata\n\
!2 = !DILocation(line: 0, column: 0, scope: !1)\n\
\n\
!llvm.dbg.cu = !{!3}\n\
!llvm.module.flags = !{!5}\n\
!5 = !{i32 2, !\"Debug Info Version\", i32 3}\n\
\n"
    );
    assert_eq!(ir, expected);
    assert_eq!(codegen.emit_ir(), expected);
}

#[test]
fn whole_text_of_the_empty_program() {
    let mut codegen = CodeGen::new();
    let ir = codegen.compile_program(&program(vec![])).unwrap();
    let expected = format!(
        "{}{}{}",
        "; Cem Compiler - Generated LLVM IR\n\n",
        DECLARATIONS,
        "; Debug Information\n\
\n\
\n\
; Debug Info Compile Unit\n\
!1 = !DIFile(filename: \"<empty>\", directory: \".\")\n\
!0 = distinct !DICompileUnit(language: DW_LANG_C, file: !1, producer: \"Cem Compiler\", isOptimized: false, runtimeVersion: 0, emissionKind: FullDebug)\n\
\n\
; DISubprogram metadata for each word\n\
\n\
; Type metadata (stubs)\n\
\n\
!llvm.dbg.cu = !{!0}\n\
!llvm.module.flags = !{!2}\n\
!2 = !{i32 2, !\"Debug Info Version\", i32 3}\n\
\n"
    );
    assert_eq!(ir, expected);
}

#[test]
fn integer_literal_stands_in_the_text_as_it_is() {
    let mut codegen = CodeGen::new();
    let ir = codegen
        .compile_program(&program(vec![word("fortytwo", vec![num(42)])]))
        .unwrap();
    assert!(ir.contains("call ptr @push_int(ptr %stack, i64 42)"));
}

#[test]
fn extreme_integer_literals() {
    let mut codegen = CodeGen::new();
    let ir = codegen
        .compile_program(&program(vec![word(
            "extremes",
            vec![num(i64::MIN), num(i64::MAX), num(-1), num(0)],
        )]))
        .unwrap();
    assert!(ir.contains("i64 -9223372036854775808)"));
    assert!(ir.contains("i64 9223372036854775807)"));
    assert!(ir.contains("i64 -1)"));
    assert!(ir.contains("i64 0)"));
}

#[test]
fn boolean_literals_are_bits() {
    let mut codegen = CodeGen::new();
    let ir = codegen
        .compile_program(&program(vec![word(
            "bits",
            vec![Expr::BoolLit(true, here()), Expr::BoolLit(false, here())],
        )]))
        .unwrap();
    assert!(ir.contains("  %0 = call ptr @push_bool(ptr %stack, i1 1), !dbg !2\n"));
    assert!(ir.contains("  %1 = call ptr @push_bool(ptr %0, i1 0), !dbg !2\n"));
}

#[test]
fn string_literal_becomes_a_hoisted_constant() {
    let mut codegen = CodeGen::new();
    let ir = codegen
        .compile_program(&program(vec![word(
            "greet",
            vec![Expr::StringLit("hi \"you\"\n".to_string(), here())],
        )]))
        .unwrap();
    // 9 bytes and the closing zero byte.
    assert!(ir.starts_with(
        "@.str.0 = private unnamed_addr constant [10 x i8] c\"hi \\22you\\22\\0A\\00\"\n; Cem Compiler"
    ));
    assert!(ir.contains(
        "  %0 = getelementptr inbounds [10 x i8], ptr @.str.0, i32 0, i32 0, !dbg !2\n  %1 = call ptr @push_string(ptr %stack, ptr %0), !dbg !2\n  ret ptr %1\n"
    ));
}

#[test]
fn string_constants_are_numbered_through_the_module() {
    let mut codegen = CodeGen::new();
    let ir = codegen
        .compile_program(&program(vec![
            word("first", vec![Expr::StringLit("a".to_string(), here())]),
            word("second", vec![Expr::StringLit("é".to_string(), here())]),
        ]))
        .unwrap();
    assert!(ir.contains("@.str.0 = private unnamed_addr constant [2 x i8] c\"a\\00\"\n"));
    assert!(ir.contains("@.str.1 = private unnamed_addr constant [3 x i8] c\"\\C3\\A9\\00\"\n"));
}

#[test]
fn escaping_of_string_constants() {
    assert_eq!(CodeGen::escape_llvm_string(""), "");
    assert_eq!(CodeGen::escape_llvm_string("plain text ~!#[]"), "plain text ~!#[]");
    // The double quote and the backslash are written by their numbers.
    assert_eq!(CodeGen::escape_llvm_string("\""), "\\22");
    assert_eq!(CodeGen::escape_llvm_string("\\"), "\\5C");
    assert_eq!(CodeGen::escape_llvm_string("a\"b"), "a\\22b");
    assert_eq!(CodeGen::escape_llvm_string("a\\b"), "a\\5Cb");
    assert_eq!(CodeGen::escape_llvm_string("tab\there"), "tab\\09here");
    assert_eq!(CodeGen::escape_llvm_string("line\nfeed"), "line\\0Afeed");
    assert_eq!(CodeGen::escape_llvm_string("\u{0}\u{1f} ~\u{7f}"), "\\00\\1F ~\\7F");
    assert_eq!(CodeGen::escape_llvm_string("é"), "\\C3\\A9");
    assert_eq!(CodeGen::escape_llvm_string("😀"), "\\F0\\9F\\98\\80");
}

#[test]
fn escaped_string_constants_are_plain_text_that_can_be_read_back() {
    let all: Vec<u8> = (0u8..=255).collect();
    let escaped = cem::text::escape_range(&all, 0, all.len());
    assert!(escaped.bytes().all(|b| (0x20..=0x7e).contains(&b) && b != b'"'));
    let text: Vec<char> = escaped.chars().collect();
    let mut back: Vec<u8> = Vec::new();
    let mut i = 0;
    while i < text.len() {
        if text[i] == '\\' {
            let pair: String = text[i + 1..i + 3].iter().collect();
            assert_eq!(pair, pair.to_uppercase());
            back.push(u8::from_str_radix(&pair, 16).unwrap());
            i += 3;
        } else {
            back.push(text[i] as u8);
            i += 1;
        }
    }
    assert_eq!(back, all);
}

#[test]
fn file_names_keep_their_own_escaping() {
    let mut codegen = CodeGen::new();
    let at = SourceLoc::new(1, 1, "dir\\sub/na\"me\t.cem".to_string());
    let ir = codegen
        .compile_program(&program(vec![WordDef {
            name: "w".to_string(),
            effect: Effect::new(StackType::Empty, StackType::Empty.push(Type::Int)),
            body: vec![Expr::StringLit("na\"me".to_string(), at.clone())],
            loc: at,
        }]))
        .unwrap();
    assert!(ir.contains(
        "!0 = !DIFile(filename: \"na\\\"me\\09.cem\", directory: \"dir\\\\sub\")\n"
    ));
    assert!(ir.contains("constant [6 x i8] c\"na\\22me\\00\"\n"));
}

#[test]
fn last_call_of_a_word_is_a_tail_call() {
    let mut codegen = CodeGen::new();
    let ir = codegen
        .compile_program(&program(vec![
            word("identity", vec![]),
            word("call_identity", vec![num(42), call("identity")]),
        ]))
        .unwrap();
    assert!(ir.contains(
        "  %0 = call ptr @push_int(ptr %stack, i64 42), !dbg !3\n  %1 = musttail call ptr @identity(ptr %0), !dbg !3\n  ret ptr %1\n}\n"
    ));
    // An empty body returns the stack that came in.
    assert!(ir.contains("define ptr @identity(ptr %stack) !dbg !1 {\nentry:\n  ret ptr %stack\n}\n"));
}

#[test]
fn call_before_the_end_is_a_plain_call() {
    let mut codegen = CodeGen::new();
    let ir = codegen
        .compile_program(&program(vec![word("w", vec![call("dup"), num(1)])]))
        .unwrap();
    assert!(ir.contains("  %0 = call ptr @dup(ptr %stack), !dbg !2\n"));
    assert!(!ir.contains("musttail"));
}

#[test]
fn tail_calls_in_both_branches_of_a_terminal_conditional() {
    let mut codegen = CodeGen::new();
    let ir = codegen
        .compile_program(&program(vec![
            word("passthrough", vec![]),
            word(
                "conditional_call",
                vec![cond(
                    vec![num(42), call("passthrough")],
                    vec![num(99), call("passthrough")],
                )],
            ),
        ]))
        .unwrap();
    assert_eq!(count(&ir, "musttail call ptr @passthrough"), 2);
    assert!(ir.contains(
        "then_0:\n  %6 = call ptr @push_int(ptr %5, i64 42), !dbg !3\n  %7 = musttail call ptr @passthrough(ptr %6), !dbg !3\n  ret ptr %7\nelse_0:\n  %8 = call ptr @push_int(ptr %5, i64 99), !dbg !3\n  %9 = musttail call ptr @passthrough(ptr %8), !dbg !3\n  ret ptr %9\n}\n"
    ));
    assert!(!ir.contains("merge_"));
    assert!(!ir.contains("phi"));
}

#[test]
fn calls_in_a_conditional_before_the_end_are_plain_calls() {
    let mut codegen = CodeGen::new();
    let ir = codegen
        .compile_program(&program(vec![
            word("passthrough", vec![]),
            word(
                "then_more",
                vec![
                    cond(vec![call("passthrough")], vec![call("passthrough")]),
                    num(1),
                ],
            ),
        ]))
        .unwrap();
    assert!(!ir.contains("musttail"));
    assert_eq!(count(&ir, "= call ptr @passthrough"), 2);
    assert!(ir.contains("merge_0:\n  %8 = phi ptr [ %6, %then_0 ], [ %7, %else_0 ]\n"));
}

#[test]
fn conditional_text() {
    let mut codegen = CodeGen::new();
    let ir = codegen
        .compile_program_with_main(
            &program(vec![word(
                "test_if",
                vec![Expr::BoolLit(true, here()), cond(vec![num(42)], vec![num(0)])],
            )]),
            Some("test_if"),
        )
        .unwrap();
    assert!(ir.contains(
        "define ptr @test_if(ptr %stack) !dbg !1 {\n\
entry:\n\
\x20 %0 = call ptr @push_bool(ptr %stack, i1 1), !dbg !2\n\
\x20 %2 = getelementptr inbounds { i32, [4 x i8], [16 x i8], ptr }, ptr %0, i32 0, i32 2, i32 0\n\
\x20 %3 = load i8, ptr %2\n\
\x20 %4 = trunc i8 %3 to i1\n\
\x20 %5 = getelementptr inbounds { i32, [4 x i8], [16 x i8], ptr }, ptr %0, i32 0, i32 3\n\
\x20 %6 = load ptr, ptr %5\n\
\x20 br i1 %4, label %then_1, label %else_1\n\
then_1:\n\
\x20 %7 = call ptr @push_int(ptr %6, i64 42), !dbg !2\n\
\x20 br label %merge_1\n\
else_1:\n\
\x20 %8 = call ptr @push_int(ptr %6, i64 0), !dbg !2\n\
\x20 br label %merge_1\n\
merge_1:\n\
\x20 %9 = phi ptr [ %7, %then_1 ], [ %8, %else_1 ]\n\
\x20 ret ptr %9\n\
}\n\
\n"
    ));
}

#[test]
fn one_branch_with_a_tail_call_merges_the_other() {
    let mut codegen = CodeGen::new();
    let ir = codegen
        .compile_program(&program(vec![
            word("other", vec![]),
            word("half", vec![cond(vec![num(1)], vec![call("other")])]),
        ]))
        .unwrap();
    assert!(ir.contains(
        "then_0:\n  %6 = call ptr @push_int(ptr %5, i64 1), !dbg !3\n  br label %merge_0\nelse_0:\n  %7 = musttail call ptr @other(ptr %5), !dbg !3\n  ret ptr %7\nmerge_0:\n  %8 = phi ptr [ %6, %then_0 ]\n  ret ptr %8\n}\n"
    ));
}

#[test]
fn nested_conditionals_merge_from_the_blocks_they_end_in() {
    let mut codegen = CodeGen::new();
    let ir = codegen
        .compile_program(&program(vec![word(
            "nested_if",
            vec![cond(
                vec![cond(vec![num(1)], vec![num(2)])],
                vec![cond(vec![num(3)], vec![num(4)])],
            )],
        )]))
        .unwrap();
    assert!(ir.contains("merge_6:\n  %14 = phi ptr [ %12, %then_6 ], [ %13, %else_6 ]\n  br label %merge_0\n"));
    assert!(ir.contains("merge_15:\n  %23 = phi ptr [ %21, %then_15 ], [ %22, %else_15 ]\n  br label %merge_0\n"));
    assert!(ir.contains("merge_0:\n  %24 = phi ptr [ %14, %merge_6 ], [ %23, %merge_15 ]\n  ret ptr %24\n"));
}

#[test]
fn quotation_becomes_a_function_of_its_own() {
    let mut codegen = CodeGen::new();
    let ir = codegen
        .compile_program(&program(vec![word(
            "test",
            vec![quote(vec![num(5), num(10), call("add")]), call("call_quotation")],
        )]))
        .unwrap();
    assert!(ir.starts_with(
        "define ptr @quot_0(ptr %stack) {\n\
entry:\n\
\x20 %0 = call ptr @push_int(ptr %stack, i64 5)\n\
\x20 %1 = call ptr @push_int(ptr %0, i64 10)\n\
\x20 %2 = musttail call ptr @add(ptr %1)\n\
\x20 ret ptr %2\n\
}\n\
\n\
; Cem Compiler"
    ));
    assert!(ir.contains(
        "define ptr @test(ptr %stack) !dbg !1 {\n\
entry:\n\
\x20 %0 = call ptr @push_quotation(ptr %stack, ptr @quot_0)\n\
\x20 %1 = musttail call ptr @call_quotation(ptr %0), !dbg !2\n\
\x20 ret ptr %1\n\
}\n"
    ));
}

#[test]
fn nested_and_repeated_quotations_have_different_names() {
    let mut codegen = CodeGen::new();
    let ir = codegen
        .compile_program(&program(vec![
            word("a", vec![quote(vec![quote(vec![])]), call("drop"), num(1)]),
            word("b", vec![quote(vec![]), call("drop"), num(2)]),
        ]))
        .unwrap();
    // The inner quotation is finished first.
    let inner = ir.find("define ptr @quot_1(ptr %stack) {\nentry:\n  ret ptr %stack\n}\n").unwrap();
    let outer = ir
        .find("define ptr @quot_0(ptr %stack) {\nentry:\n  %0 = call ptr @push_quotation(ptr %stack, ptr @quot_1)\n  ret ptr %0\n}\n")
        .unwrap();
    assert!(inner < outer);
    assert!(ir.contains("define ptr @quot_2(ptr %stack) {\nentry:\n  ret ptr %stack\n}\n"));
    assert_eq!(count(&ir, "define ptr @quot_"), 3);
}

#[test]
fn pattern_match_text() {
    let mut codegen = CodeGen::new();
    let program = Program {
        type_defs: vec![option_type()],
        word_defs: vec![word(
            "handle_option",
            vec![Expr::Match {
                branches: vec![branch("Some", vec![]), branch("None", vec![num(0)])],
                loc: here(),
            }],
        )],
    };
    let ir = codegen.compile_program(&program).unwrap();
    assert!(ir.contains(
        "define ptr @handle_option(ptr %stack) !dbg !1 {\n\
entry:\n\
\x20 %3 = getelementptr inbounds { i32, [4 x i8], [16 x i8], ptr }, ptr %stack, i32 0, i32 2, i32 0\n\
\x20 %4 = load i32, ptr %3\n\
\x20 %5 = getelementptr inbounds { i32, [4 x i8], [16 x i8], ptr }, ptr %stack, i32 0, i32 2, i32 8\n\
\x20 %6 = load ptr, ptr %5\n\
\x20 %7 = getelementptr inbounds { i32, [4 x i8], [16 x i8], ptr }, ptr %stack, i32 0, i32 3\n\
\x20 %8 = load ptr, ptr %7\n\
\x20 switch i32 %4, label %match_default_0 [\n\
\x20   i32 0, label %match_case_1\n\
\x20   i32 1, label %match_case_2\n\
\x20 ]\n\
match_case_1:\n\
\x20 %9 = getelementptr inbounds { i32, [4 x i8], [16 x i8], ptr }, ptr %6, i32 0, i32 3\n\
\x20 store ptr %8, ptr %9\n\
\x20 br label %match_merge_0\n\
match_case_2:\n\
\x20 %10 = call ptr @push_int(ptr %8, i64 0), !dbg !2\n\
\x20 br label %match_merge_0\n\
match_default_0:\n\
\x20 call void @runtime_error(ptr null)\n\
\x20 unreachable\n\
match_merge_0:\n\
\x20 %11 = phi ptr [ %6, %match_case_1 ], [ %10, %match_case_2 ]\n\
\x20 ret ptr %11\n\
}\n"
    ));
    assert_eq!(count(&ir, "switch i32 %"), 1);
    assert_eq!(count(&ir, "    i32 "), 2);
    assert_eq!(count(&ir, "match_default_0:\n"), 1);
    assert_eq!(count(&ir, "call void @runtime_error"), 1);
}

#[test]
fn pattern_match_inside_a_quotation_still_gives_a_switch() {
    let mut codegen = CodeGen::new();
    let program = Program {
        type_defs: vec![option_type()],
        word_defs: vec![word(
            "later",
            vec![
                quote(vec![Expr::Match {
                    branches: vec![branch("None", vec![]), branch("Some", vec![])],
                    loc: here(),
                }]),
                call("drop"),
                num(1),
            ],
        )],
    };
    let ir = codegen.compile_program(&program).unwrap();
    assert!(ir.contains(
        "  switch i32 %4, label %match_default_0 [\n    i32 0, label %match_case_1\n    i32 1, label %match_case_2\n  ]\n"
    ));
}

#[test]
fn variant_without_a_branch_leads_to_the_default_block() {
    let mut codegen = CodeGen::new();
    let program = Program {
        type_defs: vec![option_type()],
        word_defs: vec![word(
            "only_none",
            vec![Expr::Match {
                branches: vec![branch("None", vec![])],
                loc: here(),
            }],
        )],
    };
    let ir = codegen.compile_program(&program).unwrap();
    assert!(ir.contains(
        "  switch i32 %4, label %match_default_0 [\n    i32 0, label %match_case_1\n    i32 1, label %match_case_2\n  ]\n\
match_case_1:\n\
\x20 br label %match_default_0\n\
match_case_2:\n\
\x20 br label %match_merge_0\n\
match_default_0:\n"
    ));
    assert!(ir.contains("match_merge_0:\n  %9 = phi ptr [ %8, %match_case_2 ]\n"));
}

#[test]
fn variant_with_several_fields_links_its_last_field_to_the_rest() {
    let mut codegen = CodeGen::new();
    let pair = TypeDef {
        name: "Pair".to_string(),
        type_params: vec![],
        variants: vec![Variant {
            name: "Pair".to_string(),
            fields: vec![Type::Int, Type::Int, Type::Int],
        }],
    };
    let program = Program {
        type_defs: vec![pair],
        word_defs: vec![word(
            "open",
            vec![Expr::Match {
                branches: vec![branch("Pair", vec![])],
                loc: here(),
            }],
        )],
    };
    let ir = codegen.compile_program(&program).unwrap();
    assert!(ir.contains(
        "match_case_1:\n\
\x20 %8 = getelementptr inbounds { i32, [4 x i8], [16 x i8], ptr }, ptr %5, i32 0, i32 3\n\
\x20 %9 = load ptr, ptr %8\n\
\x20 %10 = getelementptr inbounds { i32, [4 x i8], [16 x i8], ptr }, ptr %9, i32 0, i32 3\n\
\x20 %11 = load ptr, ptr %10\n\
\x20 %12 = getelementptr inbounds { i32, [4 x i8], [16 x i8], ptr }, ptr %11, i32 0, i32 3\n\
\x20 store ptr %7, ptr %12\n\
\x20 br label %match_merge_0\n"
    ));
    assert!(ir.contains("match_merge_0:\n  %13 = phi ptr [ %5, %match_case_1 ]\n"));
}

#[test]
fn compiling_twice_gives_the_same_text() {
    let program = Program {
        type_defs: vec![option_type()],
        word_defs: vec![
            word("one", vec![Expr::StringLit("x".to_string(), here()), call("drop"), num(1)]),
            word(
                "two",
                vec![
                    quote(vec![num(1)]),
                    call("drop"),
                    cond(vec![call("one")], vec![num(2)]),
                ],
            ),
        ],
    };
    let first = CodeGen::new()
        .compile_program_with_main(&program, Some("two"))
        .unwrap();
    let second = CodeGen::new()
        .compile_program_with_main(&program.clone(), Some("two"))
        .unwrap();
    assert_eq!(first, second);
    let third = CodeGen::default()
        .compile_program_with_main(&program, Some("two"))
        .unwrap();
    assert_eq!(first, third);
}

#[test]
fn entry_function_text() {
    let mut codegen = CodeGen::new();
    let ir = codegen
        .compile_program_with_main(&program(vec![word("fortytwo", vec![num(42)])]), Some("fortytwo"))
        .unwrap();
    assert!(ir.contains(
        "; Main function\n\
define i32 @main() {\n\
entry:\n\
\x20 %stack = call ptr @fortytwo(ptr null)\n\
\x20 call void @print_stack(ptr %stack)\n\
\x20 call void @free_stack(ptr %stack)\n\
\x20 ret i32 0\n\
}\n\
\n\
; Debug Info Compile Unit\n"
    ));
}

#[test]
fn no_entry_function_unless_asked_for() {
    let mut codegen = CodeGen::new();
    let ir = codegen
        .compile_program(&program(vec![word("fortytwo", vec![num(42)])]))
        .unwrap();
    assert!(!ir.contains("@main"));
}

#[test]
fn unknown_entry_word_is_an_error() {
    let mut codegen = CodeGen::new();
    let result =
        codegen.compile_program_with_main(&program(vec![word("a", vec![num(1)])]), Some("b"));
    assert_eq!(
        result,
        Err(CodegenError::UnknownWord {
            name: "b".to_string(),
            location: None
        })
    );
}

#[test]
fn unknown_word_is_an_error() {
    let mut codegen = CodeGen::new();
    let result = codegen.compile_program(&program(vec![word("a", vec![call("nowhere")])]));
    assert_eq!(
        result,
        Err(CodegenError::UnknownWord {
            name: "nowhere".to_string(),
            location: None
        })
    );
}

#[test]
fn words_may_call_words_that_come_later_and_themselves() {
    let mut codegen = CodeGen::new();
    let ir = codegen
        .compile_program(&program(vec![
            word("first", vec![call("second")]),
            word("second", vec![call("second")]),
        ]))
        .unwrap();
    assert_eq!(count(&ir, "musttail call ptr @second"), 2);
}

#[test]
fn built_in_operations_call_their_runtime_functions() {
    let mut codegen = CodeGen::new();
    let ir = codegen
        .compile_program(&program(vec![word(
            "sums",
            vec![
                call("+"),
                call("-"),
                call("*"),
                call("/"),
                call("<"),
                call(">"),
                call("="),
                call("call"),
                call("test_yield"),
                call("string_length"),
                num(0),
            ],
        )]))
        .unwrap();
    for name in [
        "add",
        "subtract",
        "multiply",
        "divide",
        "less_than",
        "greater_than",
        "equal",
        "call_quotation",
        "test_yield",
        "string_length",
    ] {
        assert!(ir.contains(&format!("call ptr @{}(ptr %", name)), "{}", name);
    }
}

#[test]
fn runtime_functions_with_other_signatures_are_no_words() {
    for name in ["push_int", "print_stack", "runtime_error", "if"] {
        let mut codegen = CodeGen::new();
        let result = codegen.compile_program(&program(vec![word("w", vec![call(name)])]));
        assert_eq!(
            result,
            Err(CodegenError::UnknownWord {
                name: name.to_string(),
                location: None
            })
        );
    }
}

#[test]
fn loops_are_not_lowered_yet() {
    let mut codegen = CodeGen::new();
    let result = codegen.compile_program(&program(vec![word(
        "spin",
        vec![Expr::While {
            condition: Box::new(quote(vec![])),
            body: Box::new(quote(vec![])),
            loc: here(),
        }],
    )]));
    assert_eq!(
        result,
        Err(CodegenError::Unimplemented {
            feature: "while loops".to_string()
        })
    );
}

#[test]
fn branch_of_a_conditional_must_be_a_quotation() {
    let mut codegen = CodeGen::new();
    let result = codegen.compile_program(&program(vec![word(
        "bad",
        vec![Expr::If {
            then_branch: Box::new(num(1)),
            else_branch: Box::new(quote(vec![])),
            loc: here(),
        }],
    )]));
    assert_eq!(
        result,
        Err(CodegenError::InternalError(
            "If branches must be quotations".to_string()
        ))
    );
}

#[test]
fn pattern_match_needs_branches_of_one_declared_type() {
    let empty = Program {
        type_defs: vec![option_type()],
        word_defs: vec![word(
            "none",
            vec![Expr::Match {
                branches: vec![],
                loc: here(),
            }],
        )],
    };
    assert_eq!(
        CodeGen::new().compile_program(&empty),
        Err(CodegenError::InternalError(
            "Match needs at least one branch".to_string()
        ))
    );
    let undeclared = program(vec![word(
        "lost",
        vec![Expr::Match {
            branches: vec![branch("Some", vec![])],
            loc: here(),
        }],
    )]);
    assert_eq!(
        CodeGen::new().compile_program(&undeclared),
        Err(CodegenError::InternalError(
            "Match branches must name variants of a declared type".to_string()
        ))
    );
    let mixed = Program {
        type_defs: vec![option_type()],
        word_defs: vec![word(
            "mixed",
            vec![Expr::Match {
                branches: vec![branch("Some", vec![]), branch("Other", vec![])],
                loc: here(),
            }],
        )],
    };
    assert_eq!(
        CodeGen::new().compile_program(&mixed),
        Err(CodegenError::InternalError(
            "Match branches must name variants of a declared type".to_string()
        ))
    );
}

#[test]
fn source_files_get_one_record_each_in_the_order_of_first_use() {
    let mut codegen = CodeGen::new();
    let at = |file: &str, line: usize| SourceLoc::new(line, 1, file.to_string());
    let make = |name: &str, file: &str, line: usize| WordDef {
        name: name.to_string(),
        effect: Effect::new(StackType::Empty, StackType::Empty.push(Type::Int)),
        body: vec![Expr::IntLit(1, at(file, line))],
        loc: at(file, line),
    };
    let ir = codegen
        .compile_program(&program(vec![
            make("a", "src/one.cem", 3),
            make("b", "two.cem", 5),
            make("c", "src/one.cem", 7),
            make("d", "/abs/dir/three.cem", 9),
        ]))
        .unwrap();
    assert!(ir.contains(
        "; Debug Information\n\
\n\
!0 = !DIFile(filename: \"one.cem\", directory: \"src\")\n\
!1 = !DIFile(filename: \"two.cem\", directory: \"\")\n\
!2 = !DIFile(filename: \"three.cem\", directory: \"/abs/dir\")\n\
\n"
    ));
    assert!(ir.contains("!7 = distinct !DISubprogram(name: \"c\", scope: !0, file: !0, line: 7,"));
    assert!(ir.contains("!8 = !DILocation(line: 7, column: 1, scope: !7)\n"));
    assert!(ir.contains("!DICompileUnit(language: DW_LANG_C, file: !0,"));
}

#[test]
fn same_place_in_one_word_has_one_location_record() {
    let mut codegen = CodeGen::new();
    let ir = codegen
        .compile_program(&program(vec![
            word("a", vec![num(1), num(2)]),
            word("b", vec![num(3)]),
        ]))
        .unwrap();
    // Two words at the same place: one record for each word.
    assert_eq!(count(&ir, "= !DILocation(line: 0, column: 0, scope: !"), 2);
}

#[test]
fn lowering_one_expression_hands_back_the_new_stack() {
    let mut codegen = CodeGen::new();
    let program = program(vec![]);
    let lowered = codegen.compile_expr(&program, &num(7), "stack").unwrap();
    assert_eq!(lowered.value, "0");
    assert!(!lowered.terminated);
    let lowered = codegen
        .compile_expr_with_context(&program, &call("dup"), "0", true)
        .unwrap();
    assert_eq!(lowered.value, "1");
    assert!(lowered.terminated);
    assert_eq!(
        codegen.emit_ir(),
        "  %0 = call ptr @push_int(ptr %stack, i64 7)\n  %1 = musttail call ptr @dup(ptr %0)\n  ret ptr %1\n"
    );
}

#[test]
fn runtime_function_errors() {
    let mut codegen = CodeGen::new();
    assert_eq!(
        codegen.verify_runtime_function("dup"),
        Err(CodegenError::RuntimeError {
            function: "dup".to_string(),
            reason: "Runtime function not declared. Call declare_runtime_functions() first."
                .to_string(),
        })
    );
    assert_eq!(
        codegen.get_runtime_function("dup").map(|f| f.name),
        Err(CodegenError::RuntimeError {
            function: "dup".to_string(),
            reason: "Runtime function not found. Call declare_runtime_functions() first."
                .to_string(),
        })
    );
    codegen.declare_runtime_functions().unwrap();
    assert!(codegen.verify_runtime_function("no_such_function").is_err());
    assert!(codegen.get_runtime_function("no_such_function").is_err());
    let push_int = codegen.get_runtime_function("push_int").unwrap();
    assert_eq!(push_int.result, "ptr");
    assert_eq!(push_int.params, "ptr, i64");
    assert!(codegen.emit_ir().contains("declare ptr @push_int(ptr, i64)\n"));
}

#[test]
fn every_codegen_error_has_its_text() {
    let text = |e: CodegenError| e.to_string();
    assert_eq!(
        text(CodegenError::UnknownWord {
            name: "w".to_string(),
            location: None
        }),
        "Unknown word: w"
    );
    assert_eq!(
        text(CodegenError::LlvmError {
            operation: "build".to_string(),
            details: "bad".to_string()
        }),
        "LLVM error during build: bad"
    );
    assert_eq!(
        text(CodegenError::VerificationError {
            message: "m".to_string()
        }),
        "Module verification failed: m"
    );
    assert_eq!(
        text(CodegenError::InvalidProgram {
            reason: "r".to_string()
        }),
        "Invalid program: r"
    );
    assert_eq!(
        text(CodegenError::RuntimeError {
            function: "f".to_string(),
            reason: "r".to_string()
        }),
        "Runtime function 'f': r"
    );
    assert_eq!(
        text(CodegenError::InternalError("i".to_string())),
        "Internal error: i"
    );
    assert_eq!(
        text(CodegenError::LinkerError("l".to_string())),
        "Linker error: l"
    );
}

#[test]
fn built_in_operation_compiles_to_a_call_of_its_runtime_function() {
    let mut codegen = CodeGen::new();
    codegen.declare_runtime_functions().unwrap();
    let before = codegen.emit_ir();
    assert_eq!(codegen.compile_builtin("+", "stack"), Ok(Some("0".to_string())));
    assert_eq!(codegen.compile_builtin("dup", "0"), Ok(Some("1".to_string())));
    // No built-in operation: nothing is written.
    assert_eq!(codegen.compile_builtin("custom_word", "1"), Ok(None));
    assert_eq!(
        codegen.emit_ir(),
        format!(
            "{}{}",
            before, "  %0 = call ptr @add(ptr %stack)\n  %1 = call ptr @dup(ptr %0)\n"
        )
    );
    // The runtime function behind `if` does not exist.
    assert_eq!(
        codegen.compile_builtin("if", "1"),
        Err(CodegenError::RuntimeError {
            function: "if_then_else".to_string(),
            reason: "Runtime function not found. Call declare_runtime_functions() first."
                .to_string(),
        })
    );
}

#[test]
fn runtime_call_needs_a_declared_function() {
    let mut codegen = CodeGen::new();
    assert_eq!(
        codegen.compile_runtime_call("dup", "stack"),
        Err(CodegenError::RuntimeError {
            function: "dup".to_string(),
            reason: "Runtime function not found. Call declare_runtime_functions() first."
                .to_string(),
        })
    );
    assert_eq!(codegen.compile_builtin("dup", "stack").is_err(), true);
    assert_eq!(codegen.emit_ir(), "");
    codegen.declare_runtime_functions().unwrap();
    assert_eq!(
        codegen.compile_runtime_call("string_concat", "stack"),
        Ok(Some("0".to_string()))
    );
    assert!(codegen
        .emit_ir()
        .ends_with("\n  %0 = call ptr @string_concat(ptr %stack)\n"));
}

#[test]
fn failed_compilation_leaves_no_text() {
    let mut codegen = CodeGen::new();
    let result = codegen.compile_program(&program(vec![
        word("fine", vec![num(1)]),
        word("broken", vec![call("nowhere")]),
    ]));
    assert!(result.is_err());
    assert_eq!(codegen.emit_ir(), "");
}
