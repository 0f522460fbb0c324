//! Unification of types and of stack types.
//!
//! Two types unify when they have the same shape wherever neither is a
//! variable. The result binds variables to what stands opposite them; where
//! two variables meet, the one on the right is bound to the one on the
//! left. Bindings that arise at several places must agree.

use vstd::prelude::*;
use crate::ast::types::{
    Effect, EffectModel, StackModel, StackType, Type, TypeModel, copy_stack, copy_type,
    empty_stack, same_stack, same_type, types_model,
};
use crate::text::same_text;

verus! {

/// Why two types or stack types do not unify.
#[derive(Debug, Clone, Copy, PartialEq, Eq)]
pub enum UnifyError {
    /// Two types of different shape meet.
    TypeMismatch,
    /// Two named types with different names meet.
    NameMismatch,
    /// Two named types with different numbers of arguments meet.
    ArityMismatch,
    /// A stack ends where the other still has elements.
    DepthMismatch,
    /// A variable would be bound to two different things.
    Conflict,
}

/// Model of the binding of a type variable.
pub struct BindingModel {
    pub name: Seq<char>,
    pub ty: TypeModel,
}

/// Model of the binding of a row variable.
pub struct RowBindingModel {
    pub name: Seq<char>,
    pub stack: StackModel,
}

/// Model of the result of a unification: the bindings of type variables and
/// of row variables, each in the order in which they arose.
pub struct BindingsModel {
    pub types: Seq<BindingModel>,
    pub rows: Seq<RowBindingModel>,
}

/// The bindings of type variables that a unification found.
pub struct Substitution {
    bindings: Vec<(String, Type)>,
}

/// The bindings of row variables that a unification found.
pub struct StackSubstitution {
    bindings: Vec<(String, StackType)>,
}

impl View for Substitution {
    type V = Seq<BindingModel>;

    closed spec fn view(&self) -> Seq<BindingModel> {
        Seq::new(
            self.bindings@.len(),
            |i: int| BindingModel { name: self.bindings@[i].0@, ty: self.bindings@[i].1@ },
        )
    }
}

impl View for StackSubstitution {
    type V = Seq<RowBindingModel>;

    closed spec fn view(&self) -> Seq<RowBindingModel> {
        Seq::new(
            self.bindings@.len(),
            |i: int| RowBindingModel { name: self.bindings@[i].0@, stack: self.bindings@[i].1@ },
        )
    }
}

/// What the first binding of `name` at or after `from` binds it to.
pub open spec fn lookup_type(bindings: Seq<BindingModel>, name: Seq<char>, from: int) -> Option<
    TypeModel,
>
    decreases bindings.len() - from,
{
    if from < 0 || from >= bindings.len() {
        None
    } else if bindings[from].name == name {
        Some(bindings[from].ty)
    } else {
        lookup_type(bindings, name, from + 1)
    }
}

/// What the first binding of the row variable `name` at or after `from`
/// binds it to.
pub open spec fn lookup_row(bindings: Seq<RowBindingModel>, name: Seq<char>, from: int) -> Option<
    StackModel,
>
    decreases bindings.len() - from,
{
    if from < 0 || from >= bindings.len() {
        None
    } else if bindings[from].name == name {
        Some(bindings[from].stack)
    } else {
        lookup_row(bindings, name, from + 1)
    }
}

/// The bindings `acc` together with those of `more` from position `i` on:
/// a binding of a variable that `acc` binds must bind it to the same type,
/// and a binding of another variable is added.
pub open spec fn merge_types(acc: Seq<BindingModel>, more: Seq<BindingModel>, i: int) -> Result<
    Seq<BindingModel>,
    UnifyError,
>
    decreases more.len() - i,
{
    if i < 0 || i >= more.len() {
        Ok(acc)
    } else {
        match lookup_type(acc, more[i].name, 0) {
            Some(t) => if t == more[i].ty {
                merge_types(acc, more, i + 1)
            } else {
                Err(UnifyError::Conflict)
            },
            None => merge_types(acc.push(more[i]), more, i + 1),
        }
    }
}

/// The row bindings `acc` together with those of `more` from position `i`
/// on, under the same rule as for type bindings.
pub open spec fn merge_rows(
    acc: Seq<RowBindingModel>,
    more: Seq<RowBindingModel>,
    i: int,
) -> Result<
    Seq<RowBindingModel>,
    UnifyError,
>
    decreases more.len() - i,
{
    if i < 0 || i >= more.len() {
        Ok(acc)
    } else {
        match lookup_row(acc, more[i].name, 0) {
            Some(s) => if s == more[i].stack {
                merge_rows(acc, more, i + 1)
            } else {
                Err(UnifyError::Conflict)
            },
            None => merge_rows(acc.push(more[i]), more, i + 1),
        }
    }
}

/// The bindings of two unifications together, where they agree.
pub open spec fn merge_bindings(a: BindingsModel, b: BindingsModel) -> Result<
    BindingsModel,
    UnifyError,
> {
    match merge_types(a.types, b.types, 0) {
        Err(e) => Err(e),
        Ok(types) => match merge_rows(a.rows, b.rows, 0) {
            Err(e) => Err(e),
            Ok(rows) => Ok(BindingsModel { types, rows }),
        },
    }
}

/// No bindings.
pub open spec fn no_bindings() -> BindingsModel {
    BindingsModel { types: Seq::empty(), rows: Seq::empty() }
}

/// The binding of one type variable.
pub open spec fn bind_type(name: Seq<char>, ty: TypeModel) -> BindingsModel {
    BindingsModel { types: seq![BindingModel { name, ty }], rows: Seq::empty() }
}

/// The binding of one row variable.
pub open spec fn bind_row(name: Seq<char>, stack: StackModel) -> BindingsModel {
    BindingsModel { types: Seq::empty(), rows: seq![RowBindingModel { name, stack }] }
}

/// The lowest `d` elements of a stack, on its base.
pub open spec fn prefix(s: StackModel, d: nat) -> StackModel {
    StackModel { row: s.row, items: s.items.subrange(0, d as int) }
}

/// Unifying two types.
pub open spec fn unify_type(a: TypeModel, b: TypeModel) -> Result<BindingsModel, UnifyError>
    decreases a, 0nat,
{
    match (a, b) {
        (TypeModel::Var(x), TypeModel::Var(y)) => if x == y {
            Ok(no_bindings())
        } else {
            Ok(bind_type(y, a))
        },
        (_, TypeModel::Var(y)) => Ok(bind_type(y, a)),
        (TypeModel::Var(x), _) => Ok(bind_type(x, b)),
        (TypeModel::Int, TypeModel::Int) => Ok(no_bindings()),
        (TypeModel::Bool, TypeModel::Bool) => Ok(no_bindings()),
        (TypeModel::String, TypeModel::String) => Ok(no_bindings()),
        (TypeModel::Named { name: n1, args: a1 }, TypeModel::Named { name: n2, args: a2 }) => if n1
            != n2 {
            Err(UnifyError::NameMismatch)
        } else if a1.len() != a2.len() {
            Err(UnifyError::ArityMismatch)
        } else {
            unify_args(a1, a2, no_bindings(), 0)
        },
        (TypeModel::Quotation(e1), TypeModel::Quotation(e2)) => unify_effect(e1, e2),
        _ => Err(UnifyError::TypeMismatch),
    }
}

/// Unifying the arguments of two named types from position `i` on, in
/// order, starting from the bindings `acc`.
pub open spec fn unify_args(
    a1: Seq<TypeModel>,
    a2: Seq<TypeModel>,
    acc: BindingsModel,
    i: int,
) -> Result<
    BindingsModel,
    UnifyError,
>
    decreases a1, a1.len() - i,
{
    if i < 0 || i >= a1.len() || i >= a2.len() {
        Ok(acc)
    } else {
        match unify_type(a1[i], a2[i]) {
            Err(e) => Err(e),
            Ok(b) => match merge_bindings(acc, b) {
                Err(e) => Err(e),
                Ok(m) => unify_args(a1, a2, m, i + 1),
            },
        }
    }
}

/// Unifying two effects: their inputs, then their outputs.
pub open spec fn unify_effect(e1: EffectModel, e2: EffectModel) -> Result<BindingsModel, UnifyError>
    decreases e1, 0nat,
{
    match unify_stack_at(e1.inputs, e2.inputs, e1.inputs.items.len(), e2.inputs.items.len()) {
        Err(e) => Err(e),
        Ok(ins) => match unify_stack_at(
            e1.outputs,
            e2.outputs,
            e1.outputs.items.len(),
            e2.outputs.items.len(),
        ) {
            Err(e) => Err(e),
            Ok(outs) => merge_bindings(ins, outs),
        },
    }
}

/// Unifying the bases of two stacks of the same depth: a row variable is
/// bound to the empty stack opposite it, and of two different row variables
/// the right one is bound to the left one.
pub open spec fn unify_rows(r1: Option<Seq<char>>, r2: Option<Seq<char>>) -> BindingsModel {
    match (r1, r2) {
        (None, None) => no_bindings(),
        (Some(x), None) => bind_row(x, empty_stack()),
        (None, Some(y)) => bind_row(y, empty_stack()),
        (Some(x), Some(y)) => if x == y {
            no_bindings()
        } else {
            bind_row(y, StackModel { row: Some(x), items: Seq::empty() })
        },
    }
}

/// Unifying the lowest `d1` elements of `s1` with the lowest `d2` elements
/// of `s2`, each on its base. The stacks are aligned at the top. Where one
/// runs out first, it must stand on a row variable, which is bound to what
/// is left of the other. What lies below is unified before what lies above.
pub open spec fn unify_stack_at(s1: StackModel, s2: StackModel, d1: nat, d2: nat) -> Result<
    BindingsModel,
    UnifyError,
>
    decreases s1, d1,
{
    if d1 > s1.items.len() || d2 > s2.items.len() {
        Err(UnifyError::DepthMismatch)
    } else if d1 == 0 && d2 == 0 {
        Ok(unify_rows(s1.row, s2.row))
    } else if d1 == 0 {
        match s1.row {
            Some(x) => Ok(bind_row(x, prefix(s2, d2))),
            None => Err(UnifyError::DepthMismatch),
        }
    } else if d2 == 0 {
        match s2.row {
            Some(y) => Ok(bind_row(y, prefix(s1, d1))),
            None => Err(UnifyError::DepthMismatch),
        }
    } else {
        match unify_stack_at(s1, s2, (d1 - 1) as nat, (d2 - 1) as nat) {
            Err(e) => Err(e),
            Ok(below) => match unify_type(s1.items[d1 - 1], s2.items[d2 - 1]) {
                Err(e) => Err(e),
                Ok(top) => merge_bindings(below, top),
            },
        }
    }
}

/// Unifying two stack types.
pub open spec fn unify_stack(s1: StackModel, s2: StackModel) -> Result<BindingsModel, UnifyError> {
    unify_stack_at(s1, s2, s1.items.len(), s2.items.len())
}

/// The text of a unification error.
pub open spec fn unify_error_text(e: UnifyError) -> Seq<char> {
    match e {
        UnifyError::TypeMismatch => "types differ"@,
        UnifyError::NameMismatch => "type names differ"@,
        UnifyError::ArityMismatch => "numbers of type arguments differ"@,
        UnifyError::DepthMismatch => "stack depths differ"@,
        UnifyError::Conflict => "a variable is bound to two different types"@,
    }
}

/// The result of a unification as the model states it.
pub open spec fn bindings_as(r: Result<(Substitution, StackSubstitution), UnifyError>) -> Result<
    BindingsModel,
    UnifyError,
> {
    match r {
        Ok((types, rows)) => Ok(BindingsModel { types: types@, rows: rows@ }),
        Err(e) => Err(e),
    }
}

/// Unification of two stacks looks only at the elements within the given
/// depths and at the bases.
pub proof fn lemma_unify_stack_prefix(
    s1: StackModel,
    s2: StackModel,
    t1: StackModel,
    t2: StackModel,
    d1: nat,
    d2: nat,
)
    requires
        d1 <= s1.items.len(),
        d1 <= t1.items.len(),
        d2 <= s2.items.len(),
        d2 <= t2.items.len(),
        s1.row == t1.row,
        s2.row == t2.row,
        s1.items.subrange(0, d1 as int) == t1.items.subrange(0, d1 as int),
        s2.items.subrange(0, d2 as int) == t2.items.subrange(0, d2 as int),
    ensures
        unify_stack_at(s1, s2, d1, d2) == unify_stack_at(t1, t2, d1, d2),
    decreases d1,
{
    if d1 > 0 && d2 > 0 {
        assert(s1.items.subrange(0, d1 - 1) =~= s1.items.subrange(0, d1 as int).subrange(
            0,
            d1 - 1,
        ));
        assert(t1.items.subrange(0, d1 - 1) =~= t1.items.subrange(0, d1 as int).subrange(
            0,
            d1 - 1,
        ));
        assert(s2.items.subrange(0, d2 - 1) =~= s2.items.subrange(0, d2 as int).subrange(
            0,
            d2 - 1,
        ));
        assert(t2.items.subrange(0, d2 - 1) =~= t2.items.subrange(0, d2 as int).subrange(
            0,
            d2 - 1,
        ));
        lemma_unify_stack_prefix(s1, s2, t1, t2, (d1 - 1) as nat, (d2 - 1) as nat);
        assert(s1.items[d1 - 1] == s1.items.subrange(0, d1 as int)[d1 - 1]);
        assert(t1.items[d1 - 1] == t1.items.subrange(0, d1 as int)[d1 - 1]);
        assert(s2.items[d2 - 1] == s2.items.subrange(0, d2 as int)[d2 - 1]);
        assert(t2.items[d2 - 1] == t2.items.subrange(0, d2 as int)[d2 - 1]);
    }
}

impl UnifyError {
    /// The text of the error.
    pub fn to_string(&self) -> (r: String)
        ensures
            r@ == unify_error_text(*self),
    {
        match self {
            UnifyError::TypeMismatch => String::from_str("types differ"),
            UnifyError::NameMismatch => String::from_str("type names differ"),
            UnifyError::ArityMismatch => String::from_str("numbers of type arguments differ"),
            UnifyError::DepthMismatch => String::from_str("stack depths differ"),
            UnifyError::Conflict => String::from_str("a variable is bound to two different types"),
        }
    }
}

impl Substitution {
    /// The substitution without bindings.
    pub fn new() -> (r: Substitution)
        ensures
            r@ == Seq::<BindingModel>::empty(),
    {
        let r = Substitution { bindings: Vec::new() };
        assert(r@ =~= Seq::<BindingModel>::empty());
        r
    }

    /// The substitution that binds one variable.
    pub fn single(name: String, ty: Type) -> (r: Substitution)
        ensures
            r@ == seq![BindingModel { name: name@, ty: ty@ }],
    {
        let mut bindings: Vec<(String, Type)> = Vec::new();
        bindings.push((name, ty));
        let r = Substitution { bindings };
        assert(r@ =~= seq![BindingModel { name: name@, ty: ty@ }]);
        r
    }

    /// What the substitution binds a variable to.
    pub fn get(&self, name: &str) -> (r: Option<&Type>)
        ensures
            match r {
                Some(t) => lookup_type(self@, name@, 0) == Some(t@),
                None => lookup_type(self@, name@, 0) is None,
            },
    {
        let mut i: usize = 0;
        while i < self.bindings.len()
            invariant
                i <= self.bindings.len(),
                lookup_type(self@, name@, 0) == lookup_type(self@, name@, i as int),
            decreases self.bindings.len() - i,
        {
            if same_text(self.bindings[i].0.as_str(), name) {
                return Some(&self.bindings[i].1);
            }
            i += 1;
        }
        None
    }

    /// The number of bindings.
    pub fn len(&self) -> (r: usize)
        ensures
            r == self@.len(),
    {
        self.bindings.len()
    }

    /// This substitution together with `more`, where they agree.
    pub fn merge(self, more: &Substitution) -> (r: Result<Substitution, UnifyError>)
        ensures
            match r {
                Ok(m) => merge_types(self@, more@, 0) == Ok::<_, UnifyError>(m@),
                Err(e) => merge_types(self@, more@, 0) == Err::<Seq<BindingModel>, _>(e),
            },
    {
        let mut acc = self;
        let mut i: usize = 0;
        while i < more.bindings.len()
            invariant
                i <= more.bindings.len(),
                merge_types(self@, more@, 0) == merge_types(acc@, more@, i as int),
            decreases more.bindings.len() - i,
        {
            let found = match acc.get(more.bindings[i].0.as_str()) {
                Some(t) => Some(same_type(t, &more.bindings[i].1)),
                None => None,
            };
            match found {
                Some(same) => {
                    if !same {
                        return Err(UnifyError::Conflict);
                    }
                },
                None => {
                    let ghost before = acc@;
                    acc.bindings.push((more.bindings[i].0.clone(), copy_type(&more.bindings[i].1)));
                    assert(acc@ =~= before.push(more@[i as int]));
                },
            }
            i += 1;
        }
        Ok(acc)
    }
}

impl StackSubstitution {
    /// The substitution without bindings.
    pub fn new() -> (r: StackSubstitution)
        ensures
            r@ == Seq::<RowBindingModel>::empty(),
    {
        let r = StackSubstitution { bindings: Vec::new() };
        assert(r@ =~= Seq::<RowBindingModel>::empty());
        r
    }

    /// The substitution that binds one row variable.
    pub fn single(name: String, stack: StackType) -> (r: StackSubstitution)
        ensures
            r@ == seq![RowBindingModel { name: name@, stack: stack@ }],
    {
        let mut bindings: Vec<(String, StackType)> = Vec::new();
        bindings.push((name, stack));
        let r = StackSubstitution { bindings };
        assert(r@ =~= seq![RowBindingModel { name: name@, stack: stack@ }]);
        r
    }

    /// What the substitution binds a row variable to.
    pub fn get(&self, name: &str) -> (r: Option<&StackType>)
        ensures
            match r {
                Some(s) => lookup_row(self@, name@, 0) == Some(s@),
                None => lookup_row(self@, name@, 0) is None,
            },
    {
        let mut i: usize = 0;
        while i < self.bindings.len()
            invariant
                i <= self.bindings.len(),
                lookup_row(self@, name@, 0) == lookup_row(self@, name@, i as int),
            decreases self.bindings.len() - i,
        {
            if same_text(self.bindings[i].0.as_str(), name) {
                return Some(&self.bindings[i].1);
            }
            i += 1;
        }
        None
    }

    /// The number of bindings.
    pub fn len(&self) -> (r: usize)
        ensures
            r == self@.len(),
    {
        self.bindings.len()
    }

    /// This substitution together with `more`, where they agree.
    pub fn merge(self, more: &StackSubstitution) -> (r: Result<StackSubstitution, UnifyError>)
        ensures
            match r {
                Ok(m) => merge_rows(self@, more@, 0) == Ok::<_, UnifyError>(m@),
                Err(e) => merge_rows(self@, more@, 0) == Err::<Seq<RowBindingModel>, _>(e),
            },
    {
        let mut acc = self;
        let mut i: usize = 0;
        while i < more.bindings.len()
            invariant
                i <= more.bindings.len(),
                merge_rows(self@, more@, 0) == merge_rows(acc@, more@, i as int),
            decreases more.bindings.len() - i,
        {
            let found = match acc.get(more.bindings[i].0.as_str()) {
                Some(s) => Some(same_stack(s, &more.bindings[i].1)),
                None => None,
            };
            match found {
                Some(same) => {
                    if !same {
                        return Err(UnifyError::Conflict);
                    }
                },
                None => {
                    let ghost before = acc@;
                    acc.bindings.push(
                        (more.bindings[i].0.clone(), copy_stack(&more.bindings[i].1)),
                    );
                    assert(acc@ =~= before.push(more@[i as int]));
                },
            }
            i += 1;
        }
        Ok(acc)
    }
}

/// The bindings of two unifications together, where they agree.
fn merge(
    a: (Substitution, StackSubstitution),
    b: (Substitution, StackSubstitution),
) -> (r: Result<(Substitution, StackSubstitution), UnifyError>)
    ensures
        bindings_as(r) == merge_bindings(
            BindingsModel { types: a.0@, rows: a.1@ },
            BindingsModel { types: b.0@, rows: b.1@ },
        ),
{
    let types = match a.0.merge(&b.0) {
        Ok(t) => t,
        Err(e) => {
            return Err(e);
        },
    };
    let rows = match a.1.merge(&b.1) {
        Ok(r) => r,
        Err(e) => {
            return Err(e);
        },
    };
    Ok((types, rows))
}

/// Unifies two types.
pub fn unify_types(t1: &Type, t2: &Type) -> (r: Result<
    (Substitution, StackSubstitution),
    UnifyError,
>)
    ensures
        bindings_as(r) == unify_type(t1@, t2@),
    decreases *t1,
{
    match (t1, t2) {
        (Type::Var(x), Type::Var(y)) => {
            if same_text(x.as_str(), y.as_str()) {
                Ok((Substitution::new(), StackSubstitution::new()))
            } else {
                Ok((Substitution::single(y.clone(), copy_type(t1)), StackSubstitution::new()))
            }
        },
        (_, Type::Var(y)) => Ok(
            (Substitution::single(y.clone(), copy_type(t1)), StackSubstitution::new()),
        ),
        (Type::Var(x), _) => Ok(
            (Substitution::single(x.clone(), copy_type(t2)), StackSubstitution::new()),
        ),
        (Type::Int, Type::Int) => Ok((Substitution::new(), StackSubstitution::new())),
        (Type::Bool, Type::Bool) => Ok((Substitution::new(), StackSubstitution::new())),
        (Type::String, Type::String) => Ok((Substitution::new(), StackSubstitution::new())),
        (Type::Named { name: n1, args: a1 }, Type::Named { name: n2, args: a2 }) => {
            if !same_text(n1.as_str(), n2.as_str()) {
                Err(UnifyError::NameMismatch)
            } else if a1.len() != a2.len() {
                Err(UnifyError::ArityMismatch)
            } else {
                unify_type_lists(a1, a2)
            }
        },
        (Type::Quotation(e1), Type::Quotation(e2)) => unify_effects(e1, e2),
        _ => Err(UnifyError::TypeMismatch),
    }
}

/// Unifies the arguments of two named types, in order.
fn unify_type_lists(a1: &Vec<Type>, a2: &Vec<Type>) -> (r: Result<
    (Substitution, StackSubstitution),
    UnifyError,
>)
    requires
        a1.len() == a2.len(),
    ensures
        bindings_as(r) == unify_args(types_model(a1@), types_model(a2@), no_bindings(), 0),
    decreases *a1,
{
    let mut acc = (Substitution::new(), StackSubstitution::new());
    let mut i: usize = 0;
    while i < a1.len()
        invariant
            i <= a1.len(),
            a1.len() == a2.len(),
            unify_args(types_model(a1@), types_model(a2@), no_bindings(), 0) == unify_args(
                types_model(a1@),
                types_model(a2@),
                BindingsModel { types: acc.0@, rows: acc.1@ },
                i as int,
            ),
        decreases a1.len() - i,
    {
        let b = match unify_types(&a1[i], &a2[i]) {
            Ok(b) => b,
            Err(e) => {
                return Err(e);
            },
        };
        acc = match merge(acc, b) {
            Ok(m) => m,
            Err(e) => {
                return Err(e);
            },
        };
        i += 1;
    }
    Ok(acc)
}

/// Unifies two effects: their inputs, then their outputs.
fn unify_effects(e1: &Effect, e2: &Effect) -> (r: Result<
    (Substitution, StackSubstitution),
    UnifyError,
>)
    ensures
        bindings_as(r) == unify_effect(e1@, e2@),
    decreases *e1,
{
    let ins = match unify_stack_types(&e1.inputs, &e2.inputs) {
        Ok(b) => b,
        Err(e) => {
            return Err(e);
        },
    };
    let outs = match unify_stack_types(&e1.outputs, &e2.outputs) {
        Ok(b) => b,
        Err(e) => {
            return Err(e);
        },
    };
    merge(ins, outs)
}

/// Unifies two stack types.
pub fn unify_stack_types(s1: &StackType, s2: &StackType) -> (r: Result<
    (Substitution, StackSubstitution),
    UnifyError,
>)
    ensures
        bindings_as(r) == unify_stack(s1@, s2@),
    decreases *s1,
{
    match (s1, s2) {
        (StackType::Cons { rest: r1, top: t1 }, StackType::Cons { rest: r2, top: t2 }) => {
            proof {
                let d1 = s1@.items.len();
                let d2 = s2@.items.len();
                assert(s1@.items.subrange(0, d1 - 1) =~= r1@.items);
                assert(s2@.items.subrange(0, d2 - 1) =~= r2@.items);
                assert(r1@.items.subrange(0, d1 - 1) =~= r1@.items);
                assert(r2@.items.subrange(0, d2 - 1) =~= r2@.items);
                lemma_unify_stack_prefix(
                    s1@,
                    s2@,
                    r1@,
                    r2@,
                    (d1 - 1) as nat,
                    (d2 - 1) as nat,
                );
            }
            let below = match unify_stack_types(r1, r2) {
                Ok(b) => b,
                Err(e) => {
                    return Err(e);
                },
            };
            let top = match unify_types(t1, t2) {
                Ok(b) => b,
                Err(e) => {
                    return Err(e);
                },
            };
            merge(below, top)
        },
        (StackType::Cons { .. }, StackType::Empty) => Err(UnifyError::DepthMismatch),
        (StackType::Cons { .. }, StackType::RowVar(y)) => {
            assert(s1@.items.subrange(0, s1@.items.len() as int) =~= s1@.items);
            Ok((Substitution::new(), StackSubstitution::single(y.clone(), copy_stack(s1))))
        },
        (StackType::Empty, StackType::Cons { .. }) => Err(UnifyError::DepthMismatch),
        (StackType::RowVar(x), StackType::Cons { .. }) => {
            assert(s2@.items.subrange(0, s2@.items.len() as int) =~= s2@.items);
            Ok((Substitution::new(), StackSubstitution::single(x.clone(), copy_stack(s2))))
        },
        (StackType::Empty, StackType::Empty) => Ok(
            (Substitution::new(), StackSubstitution::new()),
        ),
        (StackType::RowVar(x), StackType::Empty) => Ok(
            (Substitution::new(), StackSubstitution::single(x.clone(), StackType::Empty)),
        ),
        (StackType::Empty, StackType::RowVar(y)) => Ok(
            (Substitution::new(), StackSubstitution::single(y.clone(), StackType::Empty)),
        ),
        (StackType::RowVar(x), StackType::RowVar(y)) => {
            if same_text(x.as_str(), y.as_str()) {
                Ok((Substitution::new(), StackSubstitution::new()))
            } else {
                Ok(
                    (
                        Substitution::new(),
                        StackSubstitution::single(y.clone(), StackType::RowVar(x.clone())),
                    ),
                )
            }
        },
    }
}

} // verus!
