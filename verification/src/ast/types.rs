//! Types, stack types and effects, with their mathematical models.

use vstd::prelude::*;
use crate::text::same_text;

verus! {

/// Model of a type: names are character sequences, arguments a sequence.
pub enum TypeModel {
    Int,
    Bool,
    String,
    Var(Seq<char>),
    Named { name: Seq<char>, args: Seq<TypeModel> },
    Quotation(EffectModel),
}

/// Model of a stack type: the element types from bottom to top, over a base
/// that is either the empty stack (`None`) or a row variable (`Some(name)`).
pub struct StackModel {
    pub row: Option<Seq<char>>,
    pub items: Seq<TypeModel>,
}

/// Model of an effect.
pub struct EffectModel {
    pub inputs: StackModel,
    pub outputs: StackModel,
}

/// The type of one value on the stack.
#[derive(Debug, PartialEq)]
pub enum Type {
    Int,
    Bool,
    String,
    Var(String),
    Named { name: String, args: Vec<Type> },
    Quotation(Box<Effect>),
}

/// The shape of the value stack, as a persistent singly linked chain.
#[derive(Debug, PartialEq)]
pub enum StackType {
    Empty,
    Cons { rest: Box<StackType>, top: Type },
    RowVar(String),
}

/// The contract of a word or quotation: what it consumes and what it leaves.
#[derive(Debug, PartialEq)]
pub struct Effect {
    pub inputs: StackType,
    pub outputs: StackType,
}

/// The model of a type.
pub open spec fn type_model(t: Type) -> TypeModel
    decreases t,
{
    match t {
        Type::Int => TypeModel::Int,
        Type::Bool => TypeModel::Bool,
        Type::String => TypeModel::String,
        Type::Var(name) => TypeModel::Var(name@),
        Type::Named { name, args } => TypeModel::Named { name: name@, args: types_model(args@) },
        Type::Quotation(effect) => TypeModel::Quotation(effect_model(*effect)),
    }
}

/// The models of the types of a sequence, in order.
pub open spec fn types_model(ts: Seq<Type>) -> Seq<TypeModel>
    decreases ts,
{
    Seq::new(
        ts.len(),
        |i: int|
            if 0 <= i < ts.len() {
                type_model(ts[i])
            } else {
                TypeModel::Int
            },
    )
}

/// The model of a stack type.
pub open spec fn stack_model(s: StackType) -> StackModel
    decreases s,
{
    match s {
        StackType::Empty => StackModel { row: None, items: Seq::empty() },
        StackType::Cons { rest, top } => StackModel {
            row: stack_model(*rest).row,
            items: stack_model(*rest).items.push(type_model(top)),
        },
        StackType::RowVar(name) => StackModel { row: Some(name@), items: Seq::empty() },
    }
}

/// The model of an effect.
pub open spec fn effect_model(e: Effect) -> EffectModel
    decreases e,
{
    EffectModel { inputs: stack_model(e.inputs), outputs: stack_model(e.outputs) }
}

/// A copy of a type.
pub fn copy_type(t: &Type) -> (r: Type)
    ensures
        r@ == t@,
    decreases *t,
{
    match t {
        Type::Int => Type::Int,
        Type::Bool => Type::Bool,
        Type::String => Type::String,
        Type::Var(name) => Type::Var(name.clone()),
        Type::Named { name, args } => Type::Named { name: name.clone(), args: copy_types(args) },
        Type::Quotation(effect) => Type::Quotation(Box::new(copy_effect(effect))),
    }
}

/// A copy of a list of types.
pub fn copy_types(ts: &Vec<Type>) -> (r: Vec<Type>)
    ensures
        types_model(r@) == types_model(ts@),
    decreases *ts,
{
    let mut out: Vec<Type> = Vec::new();
    let mut i: usize = 0;
    while i < ts.len()
        invariant
            i <= ts.len(),
            out.len() == i,
            forall|k: int| 0 <= k < i ==> type_model(out@[k]) == type_model(ts@[k]),
        decreases ts.len() - i,
    {
        let c = copy_type(&ts[i]);
        out.push(c);
        i += 1;
    }
    assert(types_model(out@) =~= types_model(ts@));
    out
}

/// A copy of a stack type.
pub fn copy_stack(s: &StackType) -> (r: StackType)
    ensures
        r@ == s@,
    decreases *s,
{
    match s {
        StackType::Empty => StackType::Empty,
        StackType::Cons { rest, top } => StackType::Cons {
            rest: Box::new(copy_stack(rest)),
            top: copy_type(top),
        },
        StackType::RowVar(name) => StackType::RowVar(name.clone()),
    }
}

/// A copy of an effect.
pub fn copy_effect(e: &Effect) -> (r: Effect)
    ensures
        r@ == e@,
    decreases *e,
{
    Effect { inputs: copy_stack(&e.inputs), outputs: copy_stack(&e.outputs) }
}

impl Clone for Type {
    fn clone(&self) -> (r: Self)
        ensures
            r@ == self@,
    {
        copy_type(self)
    }
}

impl Clone for StackType {
    fn clone(&self) -> (r: Self)
        ensures
            r@ == self@,
    {
        copy_stack(self)
    }
}

impl Clone for Effect {
    fn clone(&self) -> (r: Self)
        ensures
            r@ == self@,
    {
        copy_effect(self)
    }
}

impl View for Type {
    type V = TypeModel;

    open spec fn view(&self) -> TypeModel {
        type_model(*self)
    }
}

impl View for StackType {
    type V = StackModel;

    open spec fn view(&self) -> StackModel {
        stack_model(*self)
    }
}

impl View for Effect {
    type V = EffectModel;

    open spec fn view(&self) -> EffectModel {
        effect_model(*self)
    }
}

/// The stack without elements and without a row variable.
pub open spec fn empty_stack() -> StackModel {
    StackModel { row: None, items: Seq::empty() }
}

/// The stack with one more element on top.
pub open spec fn pushed(s: StackModel, t: TypeModel) -> StackModel {
    StackModel { row: s.row, items: s.items.push(t) }
}

/// The stack without its top element.
pub open spec fn popped(s: StackModel) -> StackModel {
    StackModel { row: s.row, items: s.items.drop_last() }
}

/// A count as a machine number: counts beyond the largest machine number
/// are given as that number.
pub open spec fn clamp(n: nat) -> usize {
    if n <= usize::MAX {
        n as usize
    } else {
        usize::MAX
    }
}

/// The depth of a stack: the number of its elements, and none where the
/// stack stands on a row variable.
pub open spec fn depth_of(s: StackModel) -> Option<usize> {
    if s.row is None {
        Some(clamp(s.items.len()))
    } else {
        None
    }
}

/// The effect that takes the elements `inputs` and leaves the elements
/// `outputs`, both from bottom to top.
pub open spec fn effect_of(inputs: Seq<TypeModel>, outputs: Seq<TypeModel>) -> EffectModel {
    EffectModel {
        inputs: StackModel { row: None, items: inputs },
        outputs: StackModel { row: None, items: outputs },
    }
}

/// How a type is written.
pub open spec fn type_text(t: TypeModel) -> Seq<char>
    decreases t, 0nat,
{
    match t {
        TypeModel::Int => "Int"@,
        TypeModel::Bool => "Bool"@,
        TypeModel::String => "String"@,
        TypeModel::Var(name) => name,
        TypeModel::Named { name, args } => if args.len() == 0 {
            name
        } else {
            args_text(name + "("@, args, 0) + ")"@
        },
        TypeModel::Quotation(effect) => "["@ + effect_text(effect) + "]"@,
    }
}

/// The arguments of a type from position `i` on, written after `acc` and
/// separated by blanks.
pub open spec fn args_text(acc: Seq<char>, args: Seq<TypeModel>, i: int) -> Seq<char>
    decreases args, args.len() - i,
{
    if i < 0 || i >= args.len() {
        acc
    } else if i == 0 {
        args_text(acc + type_text(args[i]), args, i + 1)
    } else {
        args_text(acc + " "@ + type_text(args[i]), args, i + 1)
    }
}

/// The elements of a stack from position `i` on, written after `acc`, each
/// followed by a blank.
pub open spec fn items_text(acc: Seq<char>, items: Seq<TypeModel>, i: int) -> Seq<char>
    decreases items, items.len() - i,
{
    if i < 0 || i >= items.len() {
        acc
    } else {
        items_text(acc + type_text(items[i]) + " "@, items, i + 1)
    }
}

/// How the base of a stack is written: a row variable by its name and a
/// blank, the empty base by nothing.
pub open spec fn row_text(row: Option<Seq<char>>) -> Seq<char> {
    match row {
        Some(name) => name + " "@,
        None => Seq::empty(),
    }
}

/// How a stack is written: its base, then its elements from bottom to top,
/// each followed by a blank.
pub open spec fn stack_text(s: StackModel) -> Seq<char>
    decreases s, 0nat,
{
    items_text(row_text(s.row), s.items, 0)
}

/// How an effect is written: `( inputs -- outputs )`.
pub open spec fn effect_text(e: EffectModel) -> Seq<char>
    decreases e, 0nat,
{
    "( "@ + stack_text(e.inputs) + "-- "@ + stack_text(e.outputs) + ")"@
}

/// Whether two types are the same.
pub fn same_type(a: &Type, b: &Type) -> (r: bool)
    ensures
        r == (a@ == b@),
    decreases *a,
{
    match (a, b) {
        (Type::Int, Type::Int) => true,
        (Type::Bool, Type::Bool) => true,
        (Type::String, Type::String) => true,
        (Type::Var(x), Type::Var(y)) => same_text(x.as_str(), y.as_str()),
        (Type::Named { name: n1, args: a1 }, Type::Named { name: n2, args: a2 }) => same_text(
            n1.as_str(),
            n2.as_str(),
        ) && same_types(a1, a2),
        (Type::Quotation(e1), Type::Quotation(e2)) => same_effect(e1, e2),
        _ => false,
    }
}

/// Whether two lists of types are the same.
pub fn same_types(a: &Vec<Type>, b: &Vec<Type>) -> (r: bool)
    ensures
        r == (types_model(a@) == types_model(b@)),
    decreases *a,
{
    if a.len() != b.len() {
        assert(types_model(a@).len() != types_model(b@).len());
        return false;
    }
    let mut i: usize = 0;
    while i < a.len()
        invariant
            i <= a.len(),
            a.len() == b.len(),
            forall|k: int| 0 <= k < i ==> type_model(a@[k]) == type_model(b@[k]),
        decreases a.len() - i,
    {
        if !same_type(&a[i], &b[i]) {
            assert(types_model(a@)[i as int] != types_model(b@)[i as int]);
            return false;
        }
        i += 1;
    }
    assert(types_model(a@) =~= types_model(b@));
    true
}

/// Whether two stack types are the same.
pub fn same_stack(a: &StackType, b: &StackType) -> (r: bool)
    ensures
        r == (a@ == b@),
    decreases *a,
{
    match (a, b) {
        (StackType::Empty, StackType::Empty) => true,
        (StackType::RowVar(x), StackType::RowVar(y)) => same_text(x.as_str(), y.as_str()),
        (StackType::Cons { rest: r1, top: t1 }, StackType::Cons { rest: r2, top: t2 }) => {
            let rests = same_stack(r1, r2);
            let tops = same_type(t1, t2);
            proof {
                let i1 = stack_model(**r1).items;
                let i2 = stack_model(**r2).items;
                assert(i1.push(t1@).drop_last() =~= i1);
                assert(i2.push(t2@).drop_last() =~= i2);
                assert(i1.push(t1@).last() == t1@);
                assert(i2.push(t2@).last() == t2@);
            }
            rests && tops
        },
        (StackType::Cons { rest, top }, _) => {
            assert(a@.items.len() > 0 && b@.items.len() == 0);
            false
        },
        (_, StackType::Cons { rest, top }) => {
            assert(b@.items.len() > 0 && a@.items.len() == 0);
            false
        },
        _ => false,
    }
}

/// Whether two effects are the same.
pub fn same_effect(a: &Effect, b: &Effect) -> (r: bool)
    ensures
        r == (a@ == b@),
    decreases *a,
{
    same_stack(&a.inputs, &b.inputs) && same_stack(&a.outputs, &b.outputs)
}

/// The text of a stack with one more element on top is the text of the
/// stack, the text of the element and a blank.
pub proof fn lemma_items_text_push(acc: Seq<char>, items: Seq<TypeModel>, t: TypeModel, i: int)
    requires
        0 <= i <= items.len(),
    ensures
        items_text(acc, items.push(t), i) == items_text(acc, items, i) + type_text(t) + " "@,
    decreases items.len() - i,
{
    if i < items.len() {
        assert(items.push(t)[i] == items[i]);
        lemma_items_text_push(acc + type_text(items[i]) + " "@, items, t, i + 1);
    } else {
        assert(items.push(t)[i] == t);
        assert(items_text(acc + type_text(t) + " "@, items.push(t), i + 1) == acc + type_text(t)
            + " "@);
    }
}

/// How a type is written.
pub fn type_to_text(t: &Type) -> (r: String)
    ensures
        r@ == type_text(t@),
    decreases *t,
{
    match t {
        Type::Int => String::from_str("Int"),
        Type::Bool => String::from_str("Bool"),
        Type::String => String::from_str("String"),
        Type::Var(name) => name.clone(),
        Type::Named { name, args } => {
            if args.len() == 0 {
                name.clone()
            } else {
                let mut out = name.clone();
                out.append("(");
                let mut out = args_to_text(out, args);
                out.append(")");
                out
            }
        },
        Type::Quotation(effect) => {
            let mut out = String::from_str("[");
            let inner = effect_to_text(effect);
            out.append(inner.as_str());
            out.append("]");
            out
        },
    }
}

/// The arguments of a type, written after `prefix` and separated by blanks.
pub fn args_to_text(prefix: String, args: &Vec<Type>) -> (r: String)
    ensures
        r@ == args_text(prefix@, types_model(args@), 0),
    decreases *args,
{
    let mut out = prefix;
    let mut i: usize = 0;
    while i < args.len()
        invariant
            i <= args.len(),
            args_text(prefix@, types_model(args@), 0) == args_text(
                out@,
                types_model(args@),
                i as int,
            ),
        decreases args.len() - i,
    {
        if i > 0 {
            out.append(" ");
        }
        let arg = type_to_text(&args[i]);
        out.append(arg.as_str());
        i += 1;
    }
    out
}

/// How a stack is written.
pub fn stack_to_text(s: &StackType) -> (r: String)
    ensures
        r@ == stack_text(s@),
    decreases *s,
{
    match s {
        StackType::Empty => String::new(),
        StackType::RowVar(name) => {
            let mut out = name.clone();
            out.append(" ");
            out
        },
        StackType::Cons { rest, top } => {
            let mut out = stack_to_text(rest);
            let t = type_to_text(top);
            out.append(t.as_str());
            out.append(" ");
            proof {
                lemma_items_text_push(row_text(rest@.row), rest@.items, top@, 0);
            }
            out
        },
    }
}

/// How an effect is written.
pub fn effect_to_text(e: &Effect) -> (r: String)
    ensures
        r@ == effect_text(e@),
    decreases *e,
{
    let mut out = String::from_str("( ");
    let inputs = stack_to_text(&e.inputs);
    out.append(inputs.as_str());
    out.append("-- ");
    let outputs = stack_to_text(&e.outputs);
    out.append(outputs.as_str());
    out.append(")");
    out
}

impl Type {
    /// How the type is written.
    pub fn to_string(&self) -> (r: String)
        ensures
            r@ == type_text(self@),
    {
        type_to_text(self)
    }
}

impl StackType {
    /// The empty stack.
    pub fn empty() -> (r: StackType)
        ensures
            r@ == empty_stack(),
    {
        StackType::Empty
    }

    /// The stack with `ty` on top of this one.
    pub fn push(self, ty: Type) -> (r: StackType)
        ensures
            r@ == pushed(self@, ty@),
    {
        StackType::Cons { rest: Box::new(self), top: ty }
    }

    /// The stack below the top element, and the top element; `None` where
    /// the stack has no element.
    pub fn pop(&self) -> (r: Option<(StackType, Type)>)
        ensures
            match r {
                Some((rest, top)) => self@.items.len() > 0 && rest@ == popped(self@) && top@
                    == self@.items.last(),
                None => self@.items.len() == 0,
            },
    {
        match self {
            StackType::Cons { rest, top } => {
                assert(stack_model(**rest).items.push(top@).drop_last() =~= stack_model(
                    **rest,
                ).items);
                Some((copy_stack(rest), copy_type(top)))
            },
            _ => None,
        }
    }

    /// The number of elements, where the stack does not stand on a row
    /// variable.
    pub fn depth(&self) -> (r: Option<usize>)
        ensures
            r == depth_of(self@),
        decreases *self,
    {
        match self {
            StackType::Empty => Some(0),
            StackType::Cons { rest, top } => match rest.depth() {
                Some(d) => if d < usize::MAX {
                    Some(d + 1)
                } else {
                    Some(d)
                },
                None => None,
            },
            StackType::RowVar(_) => None,
        }
    }

    /// The stack of the given elements, from bottom to top.
    pub fn from_vec(types: Vec<Type>) -> (r: StackType)
        ensures
            r@ == (StackModel { row: None, items: types_model(types@) }),
    {
        let mut out = StackType::Empty;
        let mut i: usize = 0;
        assert(types_model(types@).subrange(0, 0) =~= Seq::empty());
        while i < types.len()
            invariant
                i <= types.len(),
                out@ == (StackModel {
                    row: None,
                    items: types_model(types@).subrange(0, i as int),
                }),
            decreases types.len() - i,
        {
            let ghost before = out@;
            out = out.push(copy_type(&types[i]));
            assert(out@.items =~= types_model(types@).subrange(0, i + 1));
            i += 1;
        }
        assert(types_model(types@).subrange(0, i as int) =~= types_model(types@));
        out
    }

    /// How the stack is written.
    pub fn to_string(&self) -> (r: String)
        ensures
            r@ == stack_text(self@),
    {
        stack_to_text(self)
    }

    /// Whether the stack has no element and no row variable.
    pub fn is_empty(&self) -> (r: bool)
        ensures
            r == (self@ == empty_stack()),
    {
        match self {
            StackType::Empty => true,
            StackType::Cons { rest, top } => {
                assert(self@.items.len() > 0);
                false
            },
            StackType::RowVar(_) => false,
        }
    }
}

impl Effect {
    /// The effect with the given input and output stacks.
    pub fn new(inputs: StackType, outputs: StackType) -> (r: Effect)
        ensures
            r@ == (EffectModel { inputs: inputs@, outputs: outputs@ }),
    {
        Effect { inputs, outputs }
    }

    /// The effect that takes the elements `inputs` and leaves the elements
    /// `outputs`, both from bottom to top.
    pub fn from_vecs(inputs: Vec<Type>, outputs: Vec<Type>) -> (r: Effect)
        ensures
            r@ == effect_of(types_model(inputs@), types_model(outputs@)),
    {
        Effect { inputs: StackType::from_vec(inputs), outputs: StackType::from_vec(outputs) }
    }

    /// How the effect is written.
    pub fn to_string(&self) -> (r: String)
        ensures
            r@ == effect_text(self@),
    {
        effect_to_text(self)
    }
}

} // verus!
