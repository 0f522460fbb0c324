use cem::ast::types::{Effect, StackType, Type};
use cem::ast::{Expr, Pattern, SourceLoc};
use cem::parser::lexer::text_of;
use cem::parser::parser::parse_int;
use cem::parser::{Lexer, ParseError, Parser, Token, TokenKind};

fn kinds(source: &str) -> Vec<TokenKind> {
    Lexer::new(source)
        .tokenize()
        .iter()
        .map(|t| t.kind)
        .collect()
}

fn token(kind: TokenKind, lexeme: &str, line: usize, column: usize) -> Token {
    Token {
        kind,
        lexeme: lexeme.to_string(),
        line,
        column,
    }
}

fn error_of(source: &str) -> ParseError {
    Parser::new(source).parse().unwrap_err()
}

fn failure(message: &str, line: usize, column: usize) -> ParseError {
    ParseError {
        message: message.to_string(),
        line,
        column,
    }
}

#[test]
fn empty_text_has_only_the_end_of_file() {
    assert_eq!(Lexer::new("").tokenize(), vec![token(TokenKind::Eof, "", 1, 1)]);
    assert_eq!(
        Lexer::new("  \n\t ").tokenize(),
        vec![token(TokenKind::Eof, "", 2, 3)]
    );
}

#[test]
fn tokens_of_a_word_definition() {
    assert_eq!(
        Lexer::new(": square ( Int -- Int ) dup * ;").tokenize(),
        vec![
            token(TokenKind::Colon, ":", 1, 1),
            token(TokenKind::Ident, "square", 1, 3),
            token(TokenKind::LeftParen, "(", 1, 10),
            token(TokenKind::Ident, "Int", 1, 12),
            token(TokenKind::Dash, "--", 1, 16),
            token(TokenKind::Ident, "Int", 1, 19),
            token(TokenKind::RightParen, ")", 1, 23),
            token(TokenKind::Ident, "dup", 1, 25),
            token(TokenKind::Ident, "*", 1, 29),
            token(TokenKind::Ident, ";", 1, 31),
            token(TokenKind::Eof, "", 1, 32),
        ]
    );
}

#[test]
fn kinds_of_words() {
    assert_eq!(
        kinds("type match end if while true false => -- : 12 -12 - -x 1x x1 + foo"),
        vec![
            TokenKind::Type,
            TokenKind::Match,
            TokenKind::End,
            TokenKind::If,
            TokenKind::While,
            TokenKind::BoolLiteral,
            TokenKind::BoolLiteral,
            TokenKind::Arrow,
            TokenKind::Dash,
            TokenKind::Colon,
            TokenKind::IntLiteral,
            TokenKind::IntLiteral,
            TokenKind::Ident,
            TokenKind::Ident,
            TokenKind::Ident,
            TokenKind::Ident,
            TokenKind::Ident,
            TokenKind::Ident,
            TokenKind::Eof,
        ]
    );
}

#[test]
fn delimiters_end_words() {
    assert_eq!(
        Lexer::new("Some(T)|[x]").tokenize(),
        vec![
            token(TokenKind::Ident, "Some", 1, 1),
            token(TokenKind::LeftParen, "(", 1, 5),
            token(TokenKind::Ident, "T", 1, 6),
            token(TokenKind::RightParen, ")", 1, 7),
            token(TokenKind::Pipe, "|", 1, 8),
            token(TokenKind::LeftBracket, "[", 1, 9),
            token(TokenKind::Ident, "x", 1, 10),
            token(TokenKind::RightBracket, "]", 1, 11),
            token(TokenKind::Eof, "", 1, 12),
        ]
    );
}

#[test]
fn string_literals_and_their_escapes() {
    assert_eq!(
        Lexer::new("\"a b\" \"q\\\"n\\nt\\tb\\\\\" x").tokenize(),
        vec![
            token(TokenKind::StringLiteral, "a b", 1, 1),
            token(TokenKind::StringLiteral, "q\"n\nt\tb\\", 1, 7),
            token(TokenKind::Ident, "x", 1, 22),
            token(TokenKind::Eof, "", 1, 23),
        ]
    );
    // A literal that is not closed runs to the end of the text.
    assert_eq!(
        Lexer::new("\"open\nend").tokenize(),
        vec![
            token(TokenKind::StringLiteral, "open\nend", 1, 1),
            token(TokenKind::Eof, "", 2, 4),
        ]
    );
}

#[test]
fn comments_and_lines() {
    assert_eq!(
        Lexer::new("a # b c\n  d#e\n# last").tokenize(),
        vec![
            token(TokenKind::Ident, "a", 1, 1),
            token(TokenKind::Ident, "d#e", 2, 3),
            token(TokenKind::Eof, "", 3, 1),
        ]
    );
}

#[test]
fn lexer_stands_at_the_end_afterwards() {
    let mut lexer = Lexer::new("a b");
    assert_eq!(lexer.tokenize().len(), 3);
    assert_eq!(lexer.tokenize(), vec![token(TokenKind::Eof, "", 1, 4)]);
}

#[test]
fn characters_to_text() {
    assert_eq!(text_of(&vec![]), "");
    assert_eq!(text_of(&vec!['h', 'é', '😀']), "hé😀");
}

#[test]
fn integers_of_literals() {
    assert_eq!(parse_int("0"), Some(0));
    assert_eq!(parse_int("42"), Some(42));
    assert_eq!(parse_int("-42"), Some(-42));
    assert_eq!(parse_int("007"), Some(7));
    assert_eq!(parse_int("9223372036854775807"), Some(i64::MAX));
    assert_eq!(parse_int("9223372036854775808"), None);
    assert_eq!(parse_int("-9223372036854775808"), Some(i64::MIN));
    assert_eq!(parse_int("-9223372036854775809"), None);
    assert_eq!(parse_int("99999999999999999999999999999999999999999999"), None);
}

#[test]
fn parsed_nodes_carry_their_places() {
    let source = ": test ( -- Int )\n  42 dup\n;";
    let program = Parser::new_with_filename(source, "demo.cem").parse().unwrap();
    let word = &program.word_defs[0];
    assert_eq!(word.loc, SourceLoc::new(1, 1, "demo.cem".to_string()));
    assert_eq!(
        word.body,
        vec![
            Expr::IntLit(42, SourceLoc::new(2, 3, "demo.cem".to_string())),
            Expr::WordCall("dup".to_string(), SourceLoc::new(2, 6, "demo.cem".to_string())),
        ]
    );
    assert_eq!(word.body[1].loc(), &SourceLoc::new(2, 6, "demo.cem".to_string()));
    let unnamed = Parser::new(": t ( -- ) ;").parse().unwrap();
    assert_eq!(unnamed.word_defs[0].loc, SourceLoc::new(1, 1, "<input>".to_string()));
    assert_eq!(
        SourceLoc::unknown(),
        SourceLoc::new(0, 0, "<unknown>".to_string())
    );
}

#[test]
fn parsed_effects_and_types() {
    let program = Parser::new(": w ( A b Int Bool String Option(Int) Pair(A Option(B)) Unit -- ) ;")
        .parse()
        .unwrap();
    let var = |n: &str| Type::Var(n.to_string());
    let named = |n: &str, args: Vec<Type>| Type::Named {
        name: n.to_string(),
        args,
    };
    assert_eq!(
        program.word_defs[0].effect,
        Effect::from_vecs(
            vec![
                var("A"),
                var("b"),
                Type::Int,
                Type::Bool,
                Type::String,
                named("Option", vec![Type::Int]),
                named("Pair", vec![var("A"), named("Option", vec![var("B")])]),
                named("Unit", vec![]),
            ],
            vec![]
        )
    );
    assert_eq!(program.word_defs[0].effect.outputs, StackType::Empty);
}

#[test]
fn parsed_literals() {
    let program = Parser::new(": w ( -- ) -5 true false \"s\" ;").parse().unwrap();
    let body = &program.word_defs[0].body;
    assert!(matches!(&body[0], Expr::IntLit(-5, _)));
    assert!(matches!(&body[1], Expr::BoolLit(true, _)));
    assert!(matches!(&body[2], Expr::BoolLit(false, _)));
    assert!(matches!(&body[3], Expr::StringLit(s, _) if s == "s"));
}

#[test]
fn parsed_control_forms() {
    let source = ": w ( -- )\n  if [ 1 ] [ 2 3 ]\n  while [ true ] [ ]\n  match Some => [ x ] None => [ ] end\n;";
    let program = Parser::new(source).parse().unwrap();
    let body = &program.word_defs[0].body;
    assert_eq!(body.len(), 3);
    match &body[0] {
        Expr::If {
            then_branch,
            else_branch,
            loc,
        } => {
            assert_eq!((loc.line, loc.column), (2, 3));
            assert!(matches!(&**then_branch, Expr::Quotation(b, l) if b.len() == 1 && l.column == 6));
            assert!(matches!(&**else_branch, Expr::Quotation(b, l) if b.len() == 2 && l.column == 12));
        }
        _ => panic!("Expected If"),
    }
    match &body[1] {
        Expr::While { condition, body, .. } => {
            assert!(matches!(&**condition, Expr::Quotation(b, _) if b.len() == 1));
            assert!(matches!(&**body, Expr::Quotation(b, _) if b.is_empty()));
        }
        _ => panic!("Expected While"),
    }
    match &body[2] {
        Expr::Match { branches, .. } => {
            assert_eq!(branches.len(), 2);
            assert_eq!(
                branches[0].pattern,
                Pattern::Variant {
                    name: "Some".to_string()
                }
            );
            assert_eq!(branches[0].body.len(), 1);
            assert_eq!(
                branches[1].pattern,
                Pattern::Variant {
                    name: "None".to_string()
                }
            );
            assert!(branches[1].body.is_empty());
        }
        _ => panic!("Expected Match"),
    }
}

#[test]
fn parsed_type_definitions() {
    let program = Parser::new("type Shape | Circle(Int) | Rect(Int Int) | Dot\ntype Box (A B) | Box(A B)")
        .parse()
        .unwrap();
    assert_eq!(program.type_defs.len(), 2);
    let shape = &program.type_defs[0];
    assert_eq!(shape.name, "Shape");
    assert!(shape.type_params.is_empty());
    assert_eq!(
        shape
            .variants
            .iter()
            .map(|v| (v.name.as_str(), v.fields.len()))
            .collect::<Vec<_>>(),
        vec![("Circle", 1), ("Rect", 2), ("Dot", 0)]
    );
    assert_eq!(program.type_defs[1].type_params, vec!["A".to_string(), "B".to_string()]);
}

#[test]
fn empty_source_is_the_empty_program() {
    let program = Parser::new(" # nothing\n").parse().unwrap();
    assert!(program.type_defs.is_empty());
    assert!(program.word_defs.is_empty());
}

#[test]
fn parse_errors_name_the_token_that_does_not_fit() {
    assert_eq!(error_of("dup"), failure("Expected 'type' or ':'", 1, 1));
    assert_eq!(error_of("type"), failure("Expected type name", 1, 5));
    assert_eq!(error_of("type T (a"), failure("Expected ')'", 1, 10));
    assert_eq!(error_of("type T ( [ )"), failure("Expected type parameter", 1, 10));
    assert_eq!(
        error_of("type T Some"),
        failure("Expected '|' before first variant", 1, 8)
    );
    assert_eq!(error_of("type T | ("), failure("Expected variant name", 1, 10));
    assert_eq!(error_of("type T | A(Int"), failure("Expected ')'", 1, 15));
    assert_eq!(error_of(": ("), failure("Expected word name", 1, 3));
    assert_eq!(
        error_of(": w -- )"),
        failure("Expected '(' for effect signature", 1, 5)
    );
    assert_eq!(
        error_of(": w ( Int"),
        failure("Expected '--' in effect signature", 1, 10)
    );
    assert_eq!(error_of(": w ( Int )"), failure("Expected type name", 1, 11));
    assert_eq!(error_of(": w ( [ -- )"), failure("Expected type name", 1, 7));
    assert_eq!(
        error_of(": w ( -- Int"),
        failure("Expected ')' after effect signature", 1, 13)
    );
    assert_eq!(
        error_of(": w ( -- ) 1"),
        failure("Expected ';' at end of word definition", 1, 13)
    );
    assert_eq!(error_of(": w ( -- ) ) ;"), failure("Unexpected token: RightParen", 1, 12));
    assert_eq!(error_of(": w ( -- ) [ 1 ;"), failure("Expected ']'", 1, 17));
    assert_eq!(
        error_of(": w ( -- ) if 1 ;"),
        failure("Expected '[' for then branch", 1, 15)
    );
    assert_eq!(
        error_of(": w ( -- ) if [ ] ;"),
        failure("Expected '[' for else branch", 1, 19)
    );
    assert_eq!(
        error_of(": w ( -- ) while ;"),
        failure("Expected '[' for condition", 1, 18)
    );
    assert_eq!(
        error_of(": w ( -- ) while [ ] ;"),
        failure("Expected '[' for body", 1, 22)
    );
    assert_eq!(
        error_of(": w ( -- ) match 1 end ;"),
        failure("Expected variant name", 1, 18)
    );
    assert_eq!(error_of(": w ( -- ) match A [ ] end ;"), failure("Expected '=>'", 1, 20));
    assert_eq!(
        error_of(": w ( -- ) match A => 1 end ;"),
        failure("Expected '[' for branch body", 1, 23)
    );
    // `;` is an identifier, so it is read as the name of a variant.
    assert_eq!(error_of(": w ( -- ) match A => [ ] ;"), failure("Expected '=>'", 1, 28));
    assert_eq!(error_of(": w ( -- ) match A => [ ]"), failure("Expected 'end'", 1, 26));
    assert_eq!(
        error_of(": w ( -- )\n 9223372036854775808 ;"),
        failure("Invalid integer: 9223372036854775808", 2, 2)
    );
}

#[test]
fn parse_error_text() {
    assert_eq!(
        failure("Expected ']'", 12, 7).to_string(),
        "Parse error at 12:7: Expected ']'"
    );
    assert_eq!(failure("m", 1, 2).clone(), failure("m", 1, 2));
}

#[test]
fn parsing_goes_on_where_the_parser_stands() {
    let mut parser = Parser::new(": a ( -- ) ; : b ( -- ) ;");
    assert_eq!(parser.parse().unwrap().word_defs.len(), 2);
    // Everything is read: what is left is the empty program.
    assert_eq!(parser.parse().unwrap().word_defs.len(), 0);
}
