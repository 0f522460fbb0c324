use cem::ast::types::{Effect, StackType, Type};
use cem::ast::{Expr, MatchBranch, Pattern, Program, SourceLoc, TypeDef, Variant, WordDef};
use cem::typechecker::environment::Environment;
use cem::typechecker::{TypeChecker, TypeError};

fn here() -> SourceLoc {
    SourceLoc::unknown()
}

fn call(name: &str) -> Expr {
    Expr::WordCall(name.to_string(), here())
}

fn num(n: i64) -> Expr {
    Expr::IntLit(n, here())
}

fn truth(b: bool) -> Expr {
    Expr::BoolLit(b, here())
}

fn quote(body: Vec<Expr>) -> Expr {
    Expr::Quotation(body, here())
}

fn cond(then_body: Vec<Expr>, else_body: Vec<Expr>) -> Expr {
    Expr::If {
        then_branch: Box::new(quote(then_body)),
        else_branch: Box::new(quote(else_body)),
        loc: here(),
    }
}

fn stack(types: Vec<Type>) -> StackType {
    StackType::from_vec(types)
}

fn word(name: &str, inputs: Vec<Type>, outputs: Vec<Type>, body: Vec<Expr>) -> WordDef {
    WordDef {
        name: name.to_string(),
        effect: Effect::from_vecs(inputs, outputs),
        body,
        loc: here(),
    }
}

fn option_type() -> TypeDef {
    TypeDef {
        name: "Option".to_string(),
        type_params: vec!["T".to_string()],
        variants: vec![
            Variant {
                name: "Some".to_string(),
                fields: vec![Type::Var("T".to_string())],
            },
            Variant {
                name: "None".to_string(),
                fields: vec![],
            },
        ],
    }
}

fn option_of(t: Type) -> Type {
    Type::Named {
        name: "Option".to_string(),
        args: vec![t],
    }
}

fn branch(name: &str, body: Vec<Expr>) -> MatchBranch {
    MatchBranch {
        pattern: Pattern::Variant {
            name: name.to_string(),
        },
        body,
    }
}

fn matching(branches: Vec<MatchBranch>) -> Expr {
    Expr::Match {
        branches,
        loc: here(),
    }
}

fn checker_with_option() -> TypeChecker {
    let mut checker = TypeChecker::new();
    checker
        .check_program(&Program {
            type_defs: vec![option_type()],
            word_defs: vec![],
        })
        .unwrap();
    checker
}

#[test]
fn add_on_an_empty_stack_underflows() {
    let checker = TypeChecker::new();
    let result = checker.check_expr(&call("add"), StackType::empty());
    assert_eq!(
        result,
        Err(TypeError::StackUnderflow {
            word: "add".to_string(),
            required: 2,
            available: 0
        })
    );
}

#[test]
fn add_on_one_element_underflows() {
    let checker = TypeChecker::new();
    let result = checker.check_expr(&call("+"), stack(vec![Type::Int]));
    assert_eq!(
        result,
        Err(TypeError::StackUnderflow {
            word: "+".to_string(),
            required: 2,
            available: 1
        })
    );
}

#[test]
fn match_that_only_handles_some_misses_none() {
    let checker = checker_with_option();
    let result = checker.check_expr(
        &matching(vec![branch("Some", vec![])]),
        stack(vec![option_of(Type::Int)]),
    );
    assert_eq!(
        result,
        Err(TypeError::NonExhaustiveMatch {
            adt_name: "Option".to_string(),
            missing_variants: vec!["None".to_string()]
        })
    );
}

#[test]
fn missing_variants_are_those_that_no_branch_names() {
    let checker = checker_with_option();
    // `Some` is named twice and `None` not at all: only `None` is missing.
    let result = checker.check_expr(
        &matching(vec![branch("Some", vec![]), branch("Some", vec![])]),
        stack(vec![option_of(Type::Int)]),
    );
    assert_eq!(
        result,
        Err(TypeError::NonExhaustiveMatch {
            adt_name: "Option".to_string(),
            missing_variants: vec!["None".to_string()]
        })
    );
    let result = checker.check_expr(
        &matching(vec![branch("None", vec![])]),
        stack(vec![option_of(Type::Int)]),
    );
    assert_eq!(
        result,
        Err(TypeError::NonExhaustiveMatch {
            adt_name: "Option".to_string(),
            missing_variants: vec!["Some".to_string()]
        })
    );
}

#[test]
fn missing_variants_stand_in_the_order_of_declaration() {
    let mut checker = TypeChecker::new();
    let shape = TypeDef {
        name: "Shape".to_string(),
        type_params: vec![],
        variants: vec!["Circle", "Rect", "Dot", "Line"]
            .into_iter()
            .map(|n| Variant {
                name: n.to_string(),
                fields: vec![],
            })
            .collect(),
    };
    checker
        .check_program(&Program {
            type_defs: vec![shape],
            word_defs: vec![],
        })
        .unwrap();
    let on = Type::Named {
        name: "Shape".to_string(),
        args: vec![],
    };
    for branches in [vec!["Rect"], vec!["Rect", "Rect"]] {
        let result = checker.check_expr(
            &matching(branches.into_iter().map(|n| branch(n, vec![])).collect()),
            stack(vec![on.clone()]),
        );
        assert_eq!(
            result,
            Err(TypeError::NonExhaustiveMatch {
                adt_name: "Shape".to_string(),
                missing_variants: vec!["Circle".to_string(), "Dot".to_string(), "Line".to_string()]
            })
        );
    }
    // The order of the branches does not matter.
    for branches in [vec!["Line", "Circle"], vec!["Circle", "Line"]] {
        let result = checker.check_expr(
            &matching(branches.into_iter().map(|n| branch(n, vec![])).collect()),
            stack(vec![on.clone()]),
        );
        assert_eq!(
            result,
            Err(TypeError::NonExhaustiveMatch {
                adt_name: "Shape".to_string(),
                missing_variants: vec!["Rect".to_string(), "Dot".to_string()]
            })
        );
    }
}

#[test]
fn match_without_branches_misses_every_variant() {
    let checker = checker_with_option();
    assert_eq!(
        checker.check_expr(&matching(vec![]), stack(vec![option_of(Type::Int)])),
        Err(TypeError::NonExhaustiveMatch {
            adt_name: "Option".to_string(),
            missing_variants: vec!["Some".to_string(), "None".to_string()]
        })
    );
    // The value is taken off the stack first.
    assert_eq!(
        checker.check_expr(&matching(vec![]), StackType::empty()),
        Err(TypeError::StackUnderflow {
            word: "match".to_string(),
            required: 1,
            available: 0
        })
    );
    assert_eq!(
        checker.check_expr(&matching(vec![]), stack(vec![Type::Bool])),
        Err(TypeError::Other {
            message: "Cannot pattern match on non-ADT type: Bool".to_string()
        })
    );
    let missing = Type::Named {
        name: "Missing".to_string(),
        args: vec![],
    };
    assert_eq!(
        checker.check_expr(&matching(vec![]), stack(vec![missing])),
        Err(TypeError::UndefinedType {
            name: "Missing".to_string()
        })
    );
}

#[test]
fn match_without_branches_on_a_type_without_variants_takes_the_value() {
    let mut checker = TypeChecker::new();
    checker
        .check_program(&Program {
            type_defs: vec![TypeDef {
                name: "Never".to_string(),
                type_params: vec![],
                variants: vec![],
            }],
            word_defs: vec![],
        })
        .unwrap();
    let never = Type::Named {
        name: "Never".to_string(),
        args: vec![],
    };
    assert_eq!(
        checker.check_expr(&matching(vec![]), stack(vec![Type::Int, never])),
        Ok(stack(vec![Type::Int]))
    );
}

#[test]
fn variant_named_by_two_branches_is_not_missing() {
    let checker = checker_with_option();
    // Every variant is named: the match is exhaustive, and every branch is
    // checked.
    let result = checker.check_expr(
        &matching(vec![
            branch("Some", vec![]),
            branch("Some", vec![]),
            branch("None", vec![num(1)]),
        ]),
        stack(vec![option_of(Type::Int)]),
    );
    assert_eq!(result, Ok(stack(vec![Type::Var("T".to_string())])));
    let result = checker.check_expr(
        &matching(vec![
            branch("Some", vec![]),
            branch("None", vec![num(1)]),
            branch("None", vec![call("nowhere")]),
        ]),
        stack(vec![option_of(Type::Int)]),
    );
    assert_eq!(
        result,
        Err(TypeError::UndefinedWord {
            name: "nowhere".to_string()
        })
    );
}

#[test]
fn exhaustive_match_in_any_order_is_accepted() {
    let checker = checker_with_option();
    let result = checker.check_expr(
        &matching(vec![branch("None", vec![num(0)]), branch("Some", vec![])]),
        stack(vec![Type::Bool, option_of(Type::Int)]),
    );
    // The result of the first branch is the result of the match.
    assert_eq!(result, Ok(stack(vec![Type::Bool, Type::Int])));
}

#[test]
fn match_pushes_the_fields_of_the_variant() {
    let checker = checker_with_option();
    let result = checker.check_expr(
        &matching(vec![branch("Some", vec![]), branch("None", vec![num(0)])]),
        stack(vec![option_of(Type::Int)]),
    );
    assert_eq!(result, Ok(stack(vec![Type::Var("T".to_string())])));
}

#[test]
fn match_errors() {
    let checker = checker_with_option();
    assert_eq!(
        checker.check_expr(&matching(vec![branch("Some", vec![])]), StackType::empty()),
        Err(TypeError::StackUnderflow {
            word: "match".to_string(),
            required: 1,
            available: 0
        })
    );
    assert_eq!(
        checker.check_expr(&matching(vec![branch("Some", vec![])]), stack(vec![Type::Int])),
        Err(TypeError::Other {
            message: "Cannot pattern match on non-ADT type: Int".to_string()
        })
    );
    let missing = Type::Named {
        name: "Missing".to_string(),
        args: vec![],
    };
    assert_eq!(
        checker.check_expr(&matching(vec![branch("Some", vec![])]), stack(vec![missing])),
        Err(TypeError::UndefinedType {
            name: "Missing".to_string()
        })
    );
    assert_eq!(
        checker.check_expr(
            &matching(vec![
                branch("Some", vec![]),
                branch("None", vec![num(1)]),
                branch("Other", vec![]),
            ]),
            stack(vec![option_of(Type::Int)])
        ),
        Err(TypeError::Other {
            message: "Unknown variant in pattern".to_string()
        })
    );
}

#[test]
fn branches_of_a_match_must_leave_stacks_that_unify() {
    let checker = checker_with_option();
    let result = checker.check_expr(
        &matching(vec![branch("Some", vec![]), branch("None", vec![])]),
        stack(vec![Type::Bool, option_of(Type::Int)]),
    );
    let base = stack(vec![Type::Bool]);
    assert_eq!(
        result,
        Err(TypeError::InconsistentBranchEffects {
            adt_name: "Option".to_string(),
            expected: Effect::new(
                base.clone(),
                stack(vec![Type::Bool, Type::Var("T".to_string())])
            ),
            actual: Effect::new(base.clone(), base),
            branch: "branch 1".to_string(),
        })
    );
}

#[test]
fn literals_push_their_types() {
    let checker = TypeChecker::new();
    assert_eq!(
        checker.check_expr(&num(1), stack(vec![Type::Bool])),
        Ok(stack(vec![Type::Bool, Type::Int]))
    );
    assert_eq!(
        checker.check_expr(&truth(false), StackType::empty()),
        Ok(stack(vec![Type::Bool]))
    );
    assert_eq!(
        checker.check_expr(&Expr::StringLit("s".to_string(), here()), StackType::empty()),
        Ok(stack(vec![Type::String]))
    );
}

#[test]
fn quotation_pushes_the_placeholder_effect() {
    let checker = TypeChecker::new();
    let result = checker.check_expr(&quote(vec![call("no_such_word")]), StackType::empty());
    assert_eq!(
        result,
        Ok(stack(vec![Type::Quotation(Box::new(Effect::new(
            StackType::Empty,
            StackType::Empty
        )))]))
    );
}

#[test]
fn stack_operations_are_polymorphic() {
    let checker = TypeChecker::new();
    assert_eq!(
        checker.check_expr(&call("dup"), stack(vec![Type::Int, Type::String])),
        Ok(stack(vec![Type::Int, Type::String, Type::String]))
    );
    assert_eq!(
        checker.check_expr(&call("drop"), stack(vec![Type::Int, Type::String])),
        Ok(stack(vec![Type::Int]))
    );
    assert_eq!(
        checker.check_expr(&call("swap"), stack(vec![Type::Int, Type::Bool])),
        Ok(stack(vec![Type::Bool, Type::Int]))
    );
    assert_eq!(
        checker.check_expr(&call("over"), stack(vec![Type::Int, Type::Bool])),
        Ok(stack(vec![Type::Int, Type::Bool, Type::Int]))
    );
    assert_eq!(
        checker.check_expr(&call("rot"), stack(vec![Type::Int, Type::Bool, Type::String])),
        Ok(stack(vec![Type::Bool, Type::String, Type::Int]))
    );
}

#[test]
fn stack_operations_keep_the_type_variables_of_the_caller() {
    let checker = TypeChecker::new();
    let b = Type::Var("B".to_string());
    let a = Type::Var("A".to_string());
    assert_eq!(
        checker.check_expr(&call("dup"), stack(vec![b.clone()])),
        Ok(stack(vec![b.clone(), b.clone()]))
    );
    assert_eq!(
        checker.check_expr(&call("swap"), stack(vec![b.clone(), a.clone()])),
        Ok(stack(vec![a, b]))
    );
}

#[test]
fn arithmetic_and_comparison() {
    let checker = TypeChecker::new();
    for name in ["+", "-", "*", "/", "add", "subtract", "multiply", "divide"] {
        assert_eq!(
            checker.check_expr(&call(name), stack(vec![Type::Bool, Type::Int, Type::Int])),
            Ok(stack(vec![Type::Bool, Type::Int]))
        );
    }
    for name in ["<", ">", "=", "less_than", "greater_than", "equal"] {
        assert_eq!(
            checker.check_expr(&call(name), stack(vec![Type::Int, Type::Int])),
            Ok(stack(vec![Type::Bool]))
        );
    }
}

#[test]
fn wrong_argument_types_are_refused() {
    let checker = TypeChecker::new();
    assert_eq!(
        checker.check_expr(&call("+"), stack(vec![Type::Int, Type::Bool])),
        Err(TypeError::Other {
            message: "Cannot apply '+': input type mismatch: types differ".to_string()
        })
    );
}

#[test]
fn stack_on_a_row_variable_has_no_depth_for_a_word_with_inputs() {
    let checker = TypeChecker::new();
    let open = StackType::RowVar("r".to_string()).push(Type::Int);
    assert_eq!(open.depth(), None);
    assert_eq!(
        checker.check_expr(&call("dup"), open),
        Err(TypeError::StackUnderflow {
            word: "dup".to_string(),
            required: 1,
            available: 0
        })
    );
}

#[test]
fn conditional_rules() {
    let checker = TypeChecker::new();
    assert_eq!(
        checker.check_expr(&cond(vec![num(42)], vec![num(0)]), stack(vec![Type::Bool])),
        Ok(stack(vec![Type::Int]))
    );
    assert_eq!(
        checker.check_expr(&cond(vec![], vec![]), StackType::empty()),
        Err(TypeError::StackUnderflow {
            word: "if".to_string(),
            required: 1,
            available: 0
        })
    );
    assert_eq!(
        checker.check_expr(&cond(vec![], vec![]), stack(vec![Type::Int])),
        Err(TypeError::TypeMismatch {
            expected: Type::Bool,
            actual: Type::Int,
            context: "if condition".to_string()
        })
    );
    assert_eq!(
        checker.check_expr(&cond(vec![num(1)], vec![]), stack(vec![Type::Bool])),
        Err(TypeError::Other {
            message: "if branches produce incompatible stack effects".to_string()
        })
    );
    assert_eq!(
        checker.check_expr(&cond(vec![num(1)], vec![truth(true)]), stack(vec![Type::Bool])),
        Err(TypeError::Other {
            message: "if branches produce incompatible stack effects".to_string()
        })
    );
    assert_eq!(
        checker.check_expr(&cond(vec![call("nowhere")], vec![]), stack(vec![Type::Bool])),
        Err(TypeError::UndefinedWord {
            name: "nowhere".to_string()
        })
    );
}

#[test]
fn loop_rules() {
    let checker = TypeChecker::new();
    let spin = |condition: Vec<Expr>, body: Vec<Expr>| Expr::While {
        condition: Box::new(quote(condition)),
        body: Box::new(quote(body)),
        loc: here(),
    };
    assert_eq!(
        checker.check_expr(
            &spin(vec![call("dup"), num(0), call(">")], vec![num(1), call("-")]),
            stack(vec![Type::Int])
        ),
        Ok(stack(vec![Type::Int]))
    );
    assert_eq!(
        checker.check_expr(&spin(vec![], vec![]), StackType::empty()),
        Err(TypeError::StackUnderflow {
            word: "while".to_string(),
            required: 1,
            available: 0
        })
    );
    assert_eq!(
        checker.check_expr(&spin(vec![num(1)], vec![]), StackType::empty()),
        Err(TypeError::TypeMismatch {
            expected: Type::Bool,
            actual: Type::Int,
            context: "while condition".to_string()
        })
    );
    assert_eq!(
        checker.check_expr(&spin(vec![num(1), truth(true)], vec![]), StackType::empty()),
        Err(TypeError::Other {
            message: "while condition must leave the stack unchanged below its Bool".to_string()
        })
    );
    assert_eq!(
        checker.check_expr(&spin(vec![truth(true)], vec![num(1)]), StackType::empty()),
        Err(TypeError::Other {
            message: "while body must maintain stack shape".to_string()
        })
    );
}

#[test]
fn checked_word_leaves_a_stack_that_unifies_with_its_outputs() {
    let mut checker = TypeChecker::new();
    let square = word(
        "square",
        vec![Type::Int],
        vec![Type::Int],
        vec![call("dup"), call("*")],
    );
    assert_eq!(checker.check_word_def(&square), Ok(()));
    // The same body, threaded by hand, leaves the declared outputs.
    let mut current = stack(vec![Type::Int]);
    for expr in &square.body {
        current = checker.check_expr(expr, current).unwrap();
    }
    assert_eq!(current, stack(vec![Type::Int]));
}

#[test]
fn body_that_leaves_another_stack_is_an_effect_mismatch() {
    let mut checker = TypeChecker::new();
    let bad = word("bad", vec![Type::Int], vec![Type::Int], vec![truth(true)]);
    assert_eq!(
        checker.check_word_def(&bad),
        Err(TypeError::EffectMismatch {
            expected: Effect::from_vecs(vec![Type::Int], vec![Type::Int]),
            actual: Effect::from_vecs(vec![Type::Int], vec![Type::Int, Type::Bool]),
            word: "bad".to_string(),
        })
    );
    // A word that failed is not known afterwards.
    assert_eq!(
        checker.check_expr(&call("bad"), stack(vec![Type::Int])),
        Err(TypeError::UndefinedWord {
            name: "bad".to_string()
        })
    );
}

#[test]
fn words_are_known_to_the_words_after_them_only() {
    let first = word("first", vec![], vec![Type::Int], vec![num(1)]);
    let second = word("second", vec![], vec![Type::Int], vec![call("first")]);
    let in_order = Program {
        type_defs: vec![],
        word_defs: vec![first.clone(), second.clone()],
    };
    assert_eq!(TypeChecker::new().check_program(&in_order), Ok(()));
    let reversed = Program {
        type_defs: vec![],
        word_defs: vec![second, first],
    };
    assert_eq!(
        TypeChecker::new().check_program(&reversed),
        Err(TypeError::UndefinedWord {
            name: "first".to_string()
        })
    );
    let itself = Program {
        type_defs: vec![],
        word_defs: vec![word("again", vec![], vec![], vec![call("again")])],
    };
    assert_eq!(
        TypeChecker::new().check_program(&itself),
        Err(TypeError::UndefinedWord {
            name: "again".to_string()
        })
    );
}

#[test]
fn types_are_known_to_all_words_wherever_they_stand() {
    let handle = word(
        "handle",
        vec![option_of(Type::Int)],
        vec![Type::Int],
        vec![matching(vec![
            branch("Some", vec![]),
            branch("None", vec![num(0)]),
        ])],
    );
    let program = Program {
        type_defs: vec![option_type()],
        word_defs: vec![handle],
    };
    let mut checker = TypeChecker::default();
    assert_eq!(checker.check_program(&program), Ok(()));
    // The word is known afterwards, with the effect that it declared.
    assert_eq!(
        checker.check_expr(&call("handle"), stack(vec![option_of(Type::Int)])),
        Ok(stack(vec![Type::Int]))
    );
}

#[test]
fn conditional_word_of_the_scenario_checks() {
    let test_if = word(
        "test_if",
        vec![],
        vec![Type::Int],
        vec![truth(true), cond(vec![num(42)], vec![num(0)])],
    );
    assert_eq!(TypeChecker::new().check_word_def(&test_if), Ok(()));
}

#[test]
fn environment_lookups() {
    let mut env = Environment::new();
    assert_eq!(
        env.lookup_word("dup"),
        Some(&Effect::from_vecs(
            vec![Type::Var("A".to_string())],
            vec![Type::Var("A".to_string()), Type::Var("A".to_string())]
        ))
    );
    assert_eq!(env.lookup_word("unknown"), None);
    assert!(env.get_variants("Option").is_none());
    env.add_type(option_type());
    assert_eq!(env.get_variants("Option").unwrap().len(), 2);
    env.add_word("dup".to_string(), Effect::from_vecs(vec![], vec![Type::Int]));
    // A later entry replaces an earlier one.
    assert_eq!(
        env.lookup_word("dup"),
        Some(&Effect::from_vecs(vec![], vec![Type::Int]))
    );
    env.add_type(TypeDef {
        name: "Option".to_string(),
        type_params: vec![],
        variants: vec![],
    });
    assert_eq!(env.get_variants("Option").unwrap().len(), 0);
}

#[test]
fn every_type_error_has_its_text() {
    let effect = Effect::from_vecs(vec![Type::Int], vec![option_of(Type::Int), Type::Bool]);
    assert_eq!(
        TypeError::UndefinedWord {
            name: "w".to_string()
        }
        .to_string(),
        "Undefined word: w"
    );
    assert_eq!(
        TypeError::UndefinedType {
            name: "T".to_string()
        }
        .to_string(),
        "Undefined type: T"
    );
    assert_eq!(
        TypeError::StackUnderflow {
            word: "add".to_string(),
            required: 2,
            available: 0
        }
        .to_string(),
        "Stack underflow in 'add': required 2, available 0"
    );
    assert_eq!(
        TypeError::TypeMismatch {
            expected: Type::Bool,
            actual: Type::Var("x".to_string()),
            context: "if condition".to_string()
        }
        .to_string(),
        "Type mismatch in if condition: expected Bool, found x"
    );
    assert_eq!(
        TypeError::EffectMismatch {
            expected: effect.clone(),
            actual: Effect::from_vecs(vec![], vec![]),
            word: "w".to_string()
        }
        .to_string(),
        "Effect mismatch in 'w': declared ( Int -- Option(Int) Bool ), inferred ( -- )"
    );
    assert_eq!(
        TypeError::NonExhaustiveMatch {
            adt_name: "Option".to_string(),
            missing_variants: vec!["Some".to_string(), "None".to_string()]
        }
        .to_string(),
        "Non-exhaustive match on Option: missing Some, None"
    );
    assert_eq!(
        TypeError::InconsistentBranchEffects {
            adt_name: "Option".to_string(),
            expected: effect.clone(),
            actual: Effect::from_vecs(vec![Type::Int], vec![]),
            branch: "branch 1".to_string()
        }
        .to_string(),
        "Inconsistent branch effects in match on Option: branch 1 has ( Int -- ), expected ( Int -- Option(Int) Bool )"
    );
    assert_eq!(
        TypeError::Other {
            message: "m".to_string()
        }
        .to_string(),
        "m"
    );
}
