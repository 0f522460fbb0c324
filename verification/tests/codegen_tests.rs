use cem::ast::types::{Effect, StackType, Type};
use cem::ast::{Expr, Program, SourceLoc, WordDef};
use cem::codegen::primitives::is_primitive;
use cem::codegen::runtime::runtime_functions;
use cem::codegen::{CodeGen, CodegenError};

#[test]
fn test_error_display() {
    let err = CodegenError::UnknownWord {
        name: "foo".to_string(),
        location: Some("line 42".to_string()),
    };
    assert_eq!(err.to_string(), "Unknown word: foo at line 42");

    let err = CodegenError::Unimplemented {
        feature: "pattern matching".to_string(),
    };
    assert_eq!(
        err.to_string(),
        "Feature not yet implemented: pattern matching"
    );
}

#[test]
fn test_codegen_simple() {
    let mut codegen = CodeGen::new();

    // : five ( -- Int ) 5 ;
    let word = WordDef {
        name: "five".to_string(),
        effect: Effect {
            inputs: StackType::Empty,
            outputs: StackType::Empty.push(Type::Int),
        },
        body: vec![Expr::IntLit(5, SourceLoc::unknown())],
        loc: SourceLoc::unknown(),
    };

    let program = Program {
        type_defs: vec![],
        word_defs: vec![word],
    };

    let ir = codegen.compile_program(&program).unwrap();

    assert!(ir.contains("define ptr @five"));
    assert!(ir.contains("call ptr @push_int"));
    assert!(ir.contains("i64 5"));
    assert!(ir.contains("ret ptr"));
}

#[test]
fn test_codegen_word_call() {
    let mut codegen = CodeGen::new();

    // : double ( Int -- Int ) dup + ;
    let word = WordDef {
        name: "double".to_string(),
        effect: Effect {
            inputs: StackType::Empty.push(Type::Int),
            outputs: StackType::Empty.push(Type::Int),
        },
        body: vec![
            Expr::WordCall("dup".to_string(), SourceLoc::unknown()),
            Expr::WordCall("add".to_string(), SourceLoc::unknown()),
        ],
        loc: SourceLoc::unknown(),
    };

    let program = Program {
        type_defs: vec![],
        word_defs: vec![word],
    };

    let ir = codegen.compile_program(&program).unwrap();

    assert!(ir.contains("@double"));
    assert!(ir.contains("call ptr @dup"));
    assert!(ir.contains("call ptr @add"));
}

#[test]
fn test_no_target_triple_in_generated_ir() {
    let mut codegen = CodeGen::new();

    let word = WordDef {
        name: "test".to_string(),
        effect: Effect {
            inputs: StackType::Empty,
            outputs: StackType::Empty,
        },
        body: vec![],
        loc: SourceLoc::unknown(),
    };

    let program = Program {
        type_defs: vec![],
        word_defs: vec![word],
    };

    let ir = codegen.compile_program(&program).unwrap();

    // The target triple is left out on purpose, so that the backend uses
    // its default.
    assert!(
        !ir.contains("target triple"),
        "IR should not contain target triple declaration"
    );
}

#[test]
fn test_codegen_quotation() {
    let mut codegen = CodeGen::new();

    // : test ( -- Int ) [ 5 10 add ] call_quotation ;
    let word = WordDef {
        name: "test".to_string(),
        effect: Effect {
            inputs: StackType::Empty,
            outputs: StackType::Empty.push(Type::Int),
        },
        body: vec![
            Expr::Quotation(
                vec![
                    Expr::IntLit(5, SourceLoc::unknown()),
                    Expr::IntLit(10, SourceLoc::unknown()),
                    Expr::WordCall("add".to_string(), SourceLoc::unknown()),
                ],
                SourceLoc::unknown(),
            ),
            Expr::WordCall("call_quotation".to_string(), SourceLoc::unknown()),
        ],
        loc: SourceLoc::unknown(),
    };

    let program = Program {
        type_defs: vec![],
        word_defs: vec![word],
    };

    let ir = codegen.compile_program(&program).unwrap();

    assert!(
        ir.contains("define ptr @quot_"),
        "Should generate quotation function"
    );
    assert!(
        ir.contains("call ptr @push_quotation"),
        "Should push quotation"
    );
    assert!(
        ir.contains("call ptr @push_int"),
        "Quotation should push integers"
    );
    assert!(ir.contains("call ptr @add"), "Quotation should call add");
    assert!(
        ir.contains("call ptr @call_quotation"),
        "Should call call_quotation"
    );
}

#[test]
fn test_is_primitive() {
    assert!(is_primitive("dup"));
    assert!(is_primitive("+"));
    assert!(is_primitive("<"));
    assert!(!is_primitive("custom_word"));
}

#[test]
fn primitives_test_is_primitive() {
    assert!(is_primitive("dup"));
    assert!(is_primitive("+"));
    assert!(is_primitive("<"));
    assert!(!is_primitive("custom_word"));
}

#[test]
fn test_declare_runtime_functions() {
    let mut codegen = CodeGen::new();

    codegen.declare_runtime_functions().unwrap();

    // All runtime functions are declared.
    for func in runtime_functions() {
        assert!(codegen.get_runtime_function(func.name).is_ok());
    }
}

#[test]
fn test_verify_runtime_function() {
    let mut codegen = CodeGen::new();

    // Fails before the declaration.
    assert!(codegen.verify_runtime_function("dup").is_err());

    codegen.declare_runtime_functions().unwrap();

    // Succeeds after the declaration.
    assert!(codegen.verify_runtime_function("dup").is_ok());
}

#[test]
fn test_get_runtime_function() {
    let mut codegen = CodeGen::new();

    codegen.declare_runtime_functions().unwrap();

    let dup_fn = codegen.get_runtime_function("dup").unwrap();
    assert_eq!(dup_fn.name, "dup");
}

#[test]
fn test_debug_metadata_emission() {
    let word = WordDef {
        name: "fortytwo".to_string(),
        effect: Effect {
            inputs: StackType::Empty,
            outputs: StackType::Empty.push(Type::Int),
        },
        body: vec![Expr::IntLit(
            42,
            SourceLoc::new(1, 25, "test.cem".to_string()),
        )],
        loc: SourceLoc::new(1, 1, "test.cem".to_string()),
    };

    let program = Program {
        type_defs: vec![],
        word_defs: vec![word],
    };

    let mut codegen = CodeGen::new();
    let ir = codegen
        .compile_program(&program)
        .expect("Failed to generate IR");

    assert!(ir.contains("!DIFile"), "Should contain DIFile metadata");
    assert!(
        ir.contains("!DICompileUnit"),
        "Should contain DICompileUnit metadata"
    );
    assert!(
        ir.contains("!DISubprogram"),
        "Should contain DISubprogram metadata"
    );
    assert!(
        ir.contains("!DILocation"),
        "Should contain DILocation metadata"
    );
    assert!(ir.contains("!llvm.dbg.cu"), "Should contain llvm.dbg.cu");
    assert!(
        ir.contains("!llvm.module.flags"),
        "Should contain module flags"
    );

    assert!(
        ir.contains(", !dbg !"),
        "Instructions should have !dbg annotations"
    );

    assert!(
        ir.contains("define ptr @fortytwo(ptr %stack) !dbg !"),
        "Function should reference DISubprogram"
    );
}

#[test]
fn test_debug_metadata_filename_escaping() {
    let word = WordDef {
        name: "test".to_string(),
        effect: Effect {
            inputs: StackType::Empty,
            outputs: StackType::Empty.push(Type::Int),
        },
        body: vec![Expr::IntLit(
            42,
            SourceLoc::new(1, 1, "test\"file.cem".to_string()),
        )],
        loc: SourceLoc::new(1, 1, "test\"file.cem".to_string()),
    };

    let program = Program {
        type_defs: vec![],
        word_defs: vec![word],
    };

    let mut codegen = CodeGen::new();
    let ir = codegen
        .compile_program(&program)
        .expect("Failed to generate IR");

    assert!(
        ir.contains(r#"!DIFile(filename: "test\"file.cem""#),
        "Filename with quotes should be escaped"
    );
}
