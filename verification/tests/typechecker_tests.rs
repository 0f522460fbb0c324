use cem::ast::types::{StackType, Type};
use cem::ast::{Expr, SourceLoc};
use cem::typechecker::{TypeChecker, TypeError};

#[test]
fn test_check_literals() {
    let checker = TypeChecker::new();
    let stack = StackType::empty();

    // Int literal
    let result = checker.check_expr(&Expr::IntLit(42, SourceLoc::unknown()), stack.clone());
    assert!(result.is_ok());
    let stack_with_int = result.unwrap();
    assert_eq!(stack_with_int.depth(), Some(1));

    // Bool literal
    let result = checker.check_expr(&Expr::BoolLit(true, SourceLoc::unknown()), stack.clone());
    assert!(result.is_ok());
}

#[test]
fn test_check_builtin_word() {
    let checker = TypeChecker::new();

    // Start with Int on stack
    let stack = StackType::empty().push(Type::Int);

    // Call dup
    let result = checker.check_expr(
        &Expr::WordCall("dup".to_string(), SourceLoc::unknown()),
        stack,
    );
    if let Err(e) = &result {
        println!("Error: {:?}", e);
    }
    assert!(result.is_ok());
    let result_stack = result.unwrap();
    assert_eq!(result_stack.depth(), Some(2));
}

#[test]
fn test_undefined_word() {
    let checker = TypeChecker::new();
    let stack = StackType::empty();

    let result = checker.check_expr(
        &Expr::WordCall("unknown".to_string(), SourceLoc::unknown()),
        stack,
    );
    assert!(result.is_err());
    match result.unwrap_err() {
        TypeError::UndefinedWord { name } => assert_eq!(name, "unknown"),
        _ => panic!("Expected UndefinedWord error"),
    }
}

#[test]
fn test_stack_underflow() {
    let checker = TypeChecker::new();
    let stack = StackType::empty(); // Empty stack

    // Try to call + which needs 2 ints
    let result = checker.check_expr(
        &Expr::WordCall("+".to_string(), SourceLoc::unknown()),
        stack,
    );
    assert!(result.is_err());
    match result.unwrap_err() {
        TypeError::StackUnderflow { .. } => (),
        e => panic!("Expected StackUnderflow, got {:?}", e),
    }
}
