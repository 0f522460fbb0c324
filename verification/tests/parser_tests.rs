use cem::ast::Expr;
use cem::parser::Parser;

#[test]
fn test_parse_simple_word() {
    let input = ": square ( Int -- Int ) dup * ;";
    let mut parser = Parser::new(input);
    let program = parser.parse().unwrap();

    assert_eq!(program.word_defs.len(), 1);
    assert_eq!(program.word_defs[0].name, "square");
    assert_eq!(program.word_defs[0].body.len(), 2); // dup, *
}

#[test]
fn test_parse_type_def() {
    let input = "type Option (T) | Some(T) | None";
    let mut parser = Parser::new(input);
    let program = parser.parse().unwrap();

    assert_eq!(program.type_defs.len(), 1);
    assert_eq!(program.type_defs[0].name, "Option");
    assert_eq!(program.type_defs[0].type_params.len(), 1);
    assert_eq!(program.type_defs[0].variants.len(), 2);
}

#[test]
fn test_parse_literals() {
    let input = ": test ( -- Int ) 42 ;";
    let mut parser = Parser::new(input);
    let program = parser.parse().unwrap();

    assert_eq!(program.word_defs[0].body.len(), 1);
    match &program.word_defs[0].body[0] {
        Expr::IntLit(42, _) => (),
        _ => panic!("Expected IntLit(42)"),
    }
}

#[test]
fn test_parse_quotation() {
    let input = ": test ( -- ) [ 1 2 + ] ;";
    let mut parser = Parser::new(input);
    let program = parser.parse().unwrap();

    assert_eq!(program.word_defs[0].body.len(), 1);
    match &program.word_defs[0].body[0] {
        Expr::Quotation(exprs, _) => assert_eq!(exprs.len(), 3),
        _ => panic!("Expected Quotation"),
    }
}
