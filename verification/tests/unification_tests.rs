use cem::ast::types::{Effect, StackType, Type};
use cem::typechecker::unification::{
    unify_stack_types, unify_types, StackSubstitution, Substitution, UnifyError,
};

fn var(name: &str) -> Type {
    Type::Var(name.to_string())
}

fn named(name: &str, args: Vec<Type>) -> Type {
    Type::Named {
        name: name.to_string(),
        args,
    }
}

fn stack(types: Vec<Type>) -> StackType {
    StackType::from_vec(types)
}

fn row(name: &str, types: Vec<Type>) -> StackType {
    let mut s = StackType::RowVar(name.to_string());
    for t in types {
        s = s.push(t);
    }
    s
}

fn types_of(r: Result<(Substitution, StackSubstitution), UnifyError>) -> Substitution {
    r.unwrap().0
}

fn rows_of(r: Result<(Substitution, StackSubstitution), UnifyError>) -> StackSubstitution {
    r.unwrap().1
}

fn error_of(r: Result<(Substitution, StackSubstitution), UnifyError>) -> UnifyError {
    match r {
        Ok(_) => panic!("expected an error"),
        Err(e) => e,
    }
}

#[test]
fn equal_types_unify_without_bindings() {
    for t in [
        Type::Int,
        Type::Bool,
        Type::String,
        var("A"),
        named("Option", vec![Type::Int, var("A")]),
        Type::Quotation(Box::new(Effect::new(row("r", vec![Type::Int]), StackType::Empty))),
    ] {
        let (types, rows) = unify_types(&t, &t).unwrap();
        assert_eq!(types.len(), 0);
        assert_eq!(rows.len(), 0);
    }
}

#[test]
fn variable_is_bound_to_what_stands_opposite() {
    let s = types_of(unify_types(&Type::Int, &var("A")));
    assert_eq!(s.len(), 1);
    assert_eq!(s.get("A"), Some(&Type::Int));
    assert_eq!(s.get("B"), None);
    let s = types_of(unify_types(&var("A"), &named("List", vec![var("A")])));
    assert_eq!(s.get("A"), Some(&named("List", vec![var("A")])));
}

#[test]
fn of_two_variables_the_right_one_is_bound() {
    let s = types_of(unify_types(&var("A"), &var("B")));
    assert_eq!(s.len(), 1);
    assert_eq!(s.get("B"), Some(&var("A")));
    assert_eq!(s.get("A"), None);
}

#[test]
fn different_shapes_do_not_unify() {
    assert_eq!(error_of(unify_types(&Type::Int, &Type::Bool)), UnifyError::TypeMismatch);
    assert_eq!(
        error_of(unify_types(&Type::String, &named("String", vec![]))),
        UnifyError::TypeMismatch
    );
    assert_eq!(
        error_of(unify_types(&named("A", vec![]), &named("B", vec![]))),
        UnifyError::NameMismatch
    );
    assert_eq!(
        error_of(unify_types(&named("A", vec![Type::Int]), &named("A", vec![]))),
        UnifyError::ArityMismatch
    );
    assert_eq!(
        error_of(unify_types(
            &named("A", vec![Type::Int, Type::Int]),
            &named("A", vec![Type::Int, Type::Bool])
        )),
        UnifyError::TypeMismatch
    );
}

#[test]
fn bindings_from_several_places_must_agree() {
    let s = types_of(unify_types(
        &named("P", vec![Type::Int, Type::Bool, Type::Int]),
        &named("P", vec![var("A"), var("B"), var("A")]),
    ));
    assert_eq!(s.len(), 2);
    assert_eq!(s.get("A"), Some(&Type::Int));
    assert_eq!(s.get("B"), Some(&Type::Bool));
    assert_eq!(
        error_of(unify_types(
            &named("P", vec![Type::Int, Type::Bool]),
            &named("P", vec![var("A"), var("A")])
        )),
        UnifyError::Conflict
    );
}

#[test]
fn stacks_unify_element_by_element() {
    let s = types_of(unify_stack_types(
        &stack(vec![Type::Int, Type::Bool]),
        &stack(vec![var("A"), var("B")]),
    ));
    assert_eq!(s.get("A"), Some(&Type::Int));
    assert_eq!(s.get("B"), Some(&Type::Bool));
    assert_eq!(
        error_of(unify_stack_types(&stack(vec![Type::Int]), &stack(vec![]))),
        UnifyError::DepthMismatch
    );
    assert_eq!(
        error_of(unify_stack_types(&stack(vec![]), &stack(vec![Type::Int]))),
        UnifyError::DepthMismatch
    );
    // What lies below is unified first.
    assert_eq!(
        error_of(unify_stack_types(
            &stack(vec![Type::Int, named("A", vec![])]),
            &stack(vec![Type::Bool, named("B", vec![])])
        )),
        UnifyError::TypeMismatch
    );
}

#[test]
fn row_variable_is_bound_to_what_is_left_of_the_other_stack() {
    let r = rows_of(unify_stack_types(
        &stack(vec![Type::Int, Type::Bool, Type::String]),
        &row("r", vec![Type::String]),
    ));
    assert_eq!(r.len(), 1);
    assert_eq!(r.get("r"), Some(&stack(vec![Type::Int, Type::Bool])));
    assert_eq!(r.get("s"), None);
    let r = rows_of(unify_stack_types(&row("r", vec![]), &row("s", vec![Type::Int])));
    assert_eq!(r.get("r"), Some(&row("s", vec![Type::Int])));
    let r = rows_of(unify_stack_types(&row("r", vec![]), &stack(vec![])));
    assert_eq!(r.get("r"), Some(&StackType::Empty));
    let r = rows_of(unify_stack_types(&stack(vec![]), &row("r", vec![])));
    assert_eq!(r.get("r"), Some(&StackType::Empty));
    let r = rows_of(unify_stack_types(&row("r", vec![Type::Int]), &row("s", vec![Type::Int])));
    assert_eq!(r.get("s"), Some(&row("r", vec![])));
    let r = rows_of(unify_stack_types(&row("r", vec![Type::Int]), &row("r", vec![Type::Int])));
    assert_eq!(r.len(), 0);
}

#[test]
fn quotation_types_unify_by_their_effects() {
    let left = Type::Quotation(Box::new(Effect::new(
        stack(vec![Type::Int]),
        stack(vec![Type::Int, Type::Bool]),
    )));
    let right = Type::Quotation(Box::new(Effect::new(
        stack(vec![var("A")]),
        row("r", vec![Type::Bool]),
    )));
    let (types, rows) = unify_types(&left, &right).unwrap();
    assert_eq!(types.get("A"), Some(&Type::Int));
    assert_eq!(rows.get("r"), Some(&stack(vec![Type::Int])));
    let conflict = Type::Quotation(Box::new(Effect::new(
        stack(vec![var("A")]),
        stack(vec![var("A"), Type::Bool]),
    )));
    let actual = Type::Quotation(Box::new(Effect::new(
        stack(vec![Type::Int]),
        stack(vec![Type::String, Type::Bool]),
    )));
    assert_eq!(error_of(unify_types(&actual, &conflict)), UnifyError::Conflict);
}

#[test]
fn merging_substitutions() {
    let a = Substitution::single("A".to_string(), Type::Int);
    let b = Substitution::single("B".to_string(), Type::Bool);
    let both = a.merge(&b).unwrap();
    assert_eq!(both.len(), 2);
    let again = both.merge(&Substitution::single("A".to_string(), Type::Int)).unwrap();
    assert_eq!(again.len(), 2);
    assert!(matches!(
        again.merge(&Substitution::single("A".to_string(), Type::Bool)),
        Err(UnifyError::Conflict)
    ));
    assert_eq!(Substitution::new().len(), 0);
    let r = StackSubstitution::single("r".to_string(), StackType::Empty);
    assert!(matches!(
        r.merge(&StackSubstitution::single("r".to_string(), stack(vec![Type::Int]))),
        Err(UnifyError::Conflict)
    ));
    assert_eq!(StackSubstitution::new().len(), 0);
}

#[test]
fn every_unification_error_has_its_text() {
    assert_eq!(UnifyError::TypeMismatch.to_string(), "types differ");
    assert_eq!(UnifyError::NameMismatch.to_string(), "type names differ");
    assert_eq!(
        UnifyError::ArityMismatch.to_string(),
        "numbers of type arguments differ"
    );
    assert_eq!(UnifyError::DepthMismatch.to_string(), "stack depths differ");
    assert_eq!(
        UnifyError::Conflict.to_string(),
        "a variable is bound to two different types"
    );
}
