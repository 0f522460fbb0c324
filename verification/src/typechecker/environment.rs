//! The environment of the effect checker: the effects of the known words
//! and the variants of the declared types.

use vstd::prelude::*;
use crate::ast::{TypeDef, Variant, VariantModel, variants_model};
use crate::ast::types::{Effect, EffectModel, Type, TypeModel, effect_of, types_model};
use crate::text::same_text;

verus! {

/// Model of an environment: what each known word does, and which variants
/// each declared type has.
pub struct EnvModel {
    pub words: Map<Seq<char>, EffectModel>,
    pub types: Map<Seq<char>, Seq<VariantModel>>,
}

/// How many built-in words there are.
pub const BUILTIN_COUNT: usize = 19;

/// The shapes of the effects of built-in words.
#[derive(Debug, Clone, Copy, PartialEq, Eq)]
pub enum BuiltinShape {
    /// `( A -- A A )`
    Dup,
    /// `( A -- )`
    Drop,
    /// `( A B -- B A )`
    Swap,
    /// `( A B -- A B A )`
    Over,
    /// `( A B C -- B C A )`
    Rot,
    /// `( Int Int -- Int )`
    Arithmetic,
    /// `( Int Int -- Bool )`
    Comparison,
}

/// The type variable of the given name.
pub open spec fn var(name: Seq<char>) -> TypeModel {
    TypeModel::Var(name)
}

/// The effect of a built-in word of the given shape.
pub open spec fn builtin_effect(shape: BuiltinShape) -> EffectModel {
    match shape {
        BuiltinShape::Dup => effect_of(seq![var("A"@)], seq![var("A"@), var("A"@)]),
        BuiltinShape::Drop => effect_of(seq![var("A"@)], Seq::empty()),
        BuiltinShape::Swap => effect_of(seq![var("A"@), var("B"@)], seq![var("B"@), var("A"@)]),
        BuiltinShape::Over => effect_of(
            seq![var("A"@), var("B"@)],
            seq![var("A"@), var("B"@), var("A"@)],
        ),
        BuiltinShape::Rot => effect_of(
            seq![var("A"@), var("B"@), var("C"@)],
            seq![var("B"@), var("C"@), var("A"@)],
        ),
        BuiltinShape::Arithmetic => effect_of(
            seq![TypeModel::Int, TypeModel::Int],
            seq![TypeModel::Int],
        ),
        BuiltinShape::Comparison => effect_of(
            seq![TypeModel::Int, TypeModel::Int],
            seq![TypeModel::Bool],
        ),
    }
}

/// The name of the built-in word at a position of the list: the stack
/// operations, then arithmetic and comparison under their symbols and
/// under the names of their runtime functions.
pub open spec fn builtin_name(i: int) -> Seq<char> {
    if i == 0 {
        "dup"@
    } else if i == 1 {
        "drop"@
    } else if i == 2 {
        "swap"@
    } else if i == 3 {
        "over"@
    } else if i == 4 {
        "rot"@
    } else if i == 5 {
        "+"@
    } else if i == 6 {
        "-"@
    } else if i == 7 {
        "*"@
    } else if i == 8 {
        "/"@
    } else if i == 9 {
        "<"@
    } else if i == 10 {
        ">"@
    } else if i == 11 {
        "="@
    } else if i == 12 {
        "add"@
    } else if i == 13 {
        "subtract"@
    } else if i == 14 {
        "multiply"@
    } else if i == 15 {
        "divide"@
    } else if i == 16 {
        "less_than"@
    } else if i == 17 {
        "greater_than"@
    } else {
        "equal"@
    }
}

/// The shape of the effect of the built-in word at a position of the list.
pub open spec fn builtin_shape(i: int) -> BuiltinShape {
    if i == 0 {
        BuiltinShape::Dup
    } else if i == 1 {
        BuiltinShape::Drop
    } else if i == 2 {
        BuiltinShape::Swap
    } else if i == 3 {
        BuiltinShape::Over
    } else if i == 4 {
        BuiltinShape::Rot
    } else if i == 5 {
        BuiltinShape::Arithmetic
    } else if i == 6 {
        BuiltinShape::Arithmetic
    } else if i == 7 {
        BuiltinShape::Arithmetic
    } else if i == 8 {
        BuiltinShape::Arithmetic
    } else if i == 9 {
        BuiltinShape::Comparison
    } else if i == 10 {
        BuiltinShape::Comparison
    } else if i == 11 {
        BuiltinShape::Comparison
    } else if i == 12 {
        BuiltinShape::Arithmetic
    } else if i == 13 {
        BuiltinShape::Arithmetic
    } else if i == 14 {
        BuiltinShape::Arithmetic
    } else if i == 15 {
        BuiltinShape::Arithmetic
    } else if i == 16 {
        BuiltinShape::Comparison
    } else if i == 17 {
        BuiltinShape::Comparison
    } else {
        BuiltinShape::Comparison
    }
}

/// The effects of the first `n` built-in words.
pub open spec fn builtin_words(n: int) -> Map<Seq<char>, EffectModel>
    decreases n,
{
    if n <= 0 {
        Map::empty()
    } else {
        builtin_words(n - 1).insert(builtin_name(n - 1), builtin_effect(builtin_shape(n - 1)))
    }
}

/// The environment that knows the built-in words and no types.
pub open spec fn builtin_env() -> EnvModel {
    EnvModel { words: builtin_words(BUILTIN_COUNT as int), types: Map::empty() }
}

/// The effects that a list of entries gives to words: a later entry for a
/// name replaces an earlier one.
pub open spec fn words_of(entries: Seq<(String, Effect)>) -> Map<Seq<char>, EffectModel>
    decreases entries.len(),
{
    if entries.len() == 0 {
        Map::empty()
    } else {
        words_of(entries.drop_last()).insert(entries.last().0@, entries.last().1@)
    }
}

/// The variants that a list of definitions gives to types: a later
/// definition of a name replaces an earlier one.
pub open spec fn types_of(defs: Seq<TypeDef>) -> Map<Seq<char>, Seq<VariantModel>>
    decreases defs.len(),
{
    if defs.len() == 0 {
        Map::empty()
    } else {
        types_of(defs.drop_last()).insert(defs.last().name@, variants_model(defs.last().variants@))
    }
}

/// The environment of the effect checker.
pub struct Environment {
    words: Vec<(String, Effect)>,
    types: Vec<TypeDef>,
}

impl View for Environment {
    type V = EnvModel;

    closed spec fn view(&self) -> EnvModel {
        EnvModel { words: words_of(self.words@), types: types_of(self.types@) }
    }
}

/// The name of the built-in word at position `i` of the list.
fn builtin_name_at(i: usize) -> (r: &'static str)
    requires
        i < BUILTIN_COUNT,
    ensures
        r@ == builtin_name(i as int),
{
    if i == 0 {
        "dup"
    } else if i == 1 {
        "drop"
    } else if i == 2 {
        "swap"
    } else if i == 3 {
        "over"
    } else if i == 4 {
        "rot"
    } else if i == 5 {
        "+"
    } else if i == 6 {
        "-"
    } else if i == 7 {
        "*"
    } else if i == 8 {
        "/"
    } else if i == 9 {
        "<"
    } else if i == 10 {
        ">"
    } else if i == 11 {
        "="
    } else if i == 12 {
        "add"
    } else if i == 13 {
        "subtract"
    } else if i == 14 {
        "multiply"
    } else if i == 15 {
        "divide"
    } else if i == 16 {
        "less_than"
    } else if i == 17 {
        "greater_than"
    } else {
        "equal"
    }
}

/// The shape of the effect of the built-in word at position `i` of the list.
fn builtin_shape_at(i: usize) -> (r: BuiltinShape)
    requires
        i < BUILTIN_COUNT,
    ensures
        r == builtin_shape(i as int),
{
    if i == 0 {
        BuiltinShape::Dup
    } else if i == 1 {
        BuiltinShape::Drop
    } else if i == 2 {
        BuiltinShape::Swap
    } else if i == 3 {
        BuiltinShape::Over
    } else if i == 4 {
        BuiltinShape::Rot
    } else if i == 5 {
        BuiltinShape::Arithmetic
    } else if i == 6 {
        BuiltinShape::Arithmetic
    } else if i == 7 {
        BuiltinShape::Arithmetic
    } else if i == 8 {
        BuiltinShape::Arithmetic
    } else if i == 9 {
        BuiltinShape::Comparison
    } else if i == 10 {
        BuiltinShape::Comparison
    } else if i == 11 {
        BuiltinShape::Comparison
    } else if i == 12 {
        BuiltinShape::Arithmetic
    } else if i == 13 {
        BuiltinShape::Arithmetic
    } else if i == 14 {
        BuiltinShape::Arithmetic
    } else if i == 15 {
        BuiltinShape::Arithmetic
    } else if i == 16 {
        BuiltinShape::Comparison
    } else if i == 17 {
        BuiltinShape::Comparison
    } else {
        BuiltinShape::Comparison
    }
}

/// The type variable of the given name.
fn variable(name: &str) -> (r: Type)
    ensures
        r@ == var(name@),
{
    Type::Var(String::from_str(name))
}

/// The list of no types.
fn list0() -> (r: Vec<Type>)
    ensures
        types_model(r@) == Seq::<TypeModel>::empty(),
{
    let r: Vec<Type> = Vec::new();
    assert(types_model(r@) =~= Seq::<TypeModel>::empty());
    r
}

/// The list of one type.
fn list1(a: Type) -> (r: Vec<Type>)
    ensures
        types_model(r@) == seq![a@],
{
    let mut r: Vec<Type> = Vec::new();
    r.push(a);
    assert(types_model(r@) =~= seq![a@]);
    r
}

/// The list of two types.
fn list2(a: Type, b: Type) -> (r: Vec<Type>)
    ensures
        types_model(r@) == seq![a@, b@],
{
    let mut r: Vec<Type> = Vec::new();
    r.push(a);
    r.push(b);
    assert(types_model(r@) =~= seq![a@, b@]);
    r
}

/// The list of three types.
fn list3(a: Type, b: Type, c: Type) -> (r: Vec<Type>)
    ensures
        types_model(r@) == seq![a@, b@, c@],
{
    let mut r: Vec<Type> = Vec::new();
    r.push(a);
    r.push(b);
    r.push(c);
    assert(types_model(r@) =~= seq![a@, b@, c@]);
    r
}

/// The effect of a built-in word of the given shape.
fn builtin_effect_of(shape: BuiltinShape) -> (r: Effect)
    ensures
        r@ == builtin_effect(shape),
{
    match shape {
        BuiltinShape::Dup => Effect::from_vecs(
            list1(variable("A")),
            list2(variable("A"), variable("A")),
        ),
        BuiltinShape::Drop => Effect::from_vecs(list1(variable("A")), list0()),
        BuiltinShape::Swap => Effect::from_vecs(
            list2(variable("A"), variable("B")),
            list2(variable("B"), variable("A")),
        ),
        BuiltinShape::Over => Effect::from_vecs(
            list2(variable("A"), variable("B")),
            list3(variable("A"), variable("B"), variable("A")),
        ),
        BuiltinShape::Rot => Effect::from_vecs(
            list3(variable("A"), variable("B"), variable("C")),
            list3(variable("B"), variable("C"), variable("A")),
        ),
        BuiltinShape::Arithmetic => Effect::from_vecs(
            list2(Type::Int, Type::Int),
            list1(Type::Int),
        ),
        BuiltinShape::Comparison => Effect::from_vecs(
            list2(Type::Int, Type::Int),
            list1(Type::Bool),
        ),
    }
}

impl Environment {
    /// The environment that knows the built-in words and no types.
    pub fn new() -> (r: Environment)
        ensures
            r@ == builtin_env(),
    {
        let mut words: Vec<(String, Effect)> = Vec::new();
        let mut i: usize = 0;
        while i < BUILTIN_COUNT
            invariant
                i <= BUILTIN_COUNT,
                words_of(words@) == builtin_words(i as int),
            decreases BUILTIN_COUNT - i,
        {
            let ghost before = words@;
            words.push(
                (String::from_str(builtin_name_at(i)), builtin_effect_of(builtin_shape_at(i))),
            );
            assert(words@.drop_last() =~= before);
            i += 1;
        }
        Environment { words, types: Vec::new() }
    }

    /// Makes a word known, with its effect. A word of the same name that
    /// was known before is replaced.
    pub fn add_word(&mut self, name: String, effect: Effect)
        ensures
            final(self)@ == (EnvModel {
                words: old(self)@.words.insert(name@, effect@),
                ..old(self)@
            }),
    {
        let ghost before = self.words@;
        self.words.push((name, effect));
        assert(self.words@.drop_last() =~= before);
    }

    /// Makes a type known, with its variants. A type of the same name that
    /// was known before is replaced.
    pub fn add_type(&mut self, typedef: TypeDef)
        ensures
            final(self)@ == (EnvModel {
                types: old(self)@.types.insert(typedef@.name, typedef@.variants),
                ..old(self)@
            }),
    {
        let ghost before = self.types@;
        self.types.push(typedef);
        assert(self.types@.drop_last() =~= before);
    }

    /// The effect of a word, if the word is known.
    pub fn lookup_word(&self, name: &str) -> (r: Option<&Effect>)
        ensures
            match r {
                Some(e) => self@.words.contains_key(name@) && e@ == self@.words[name@],
                None => !self@.words.contains_key(name@),
            },
    {
        let mut i: usize = self.words.len();
        assert(self.words@.subrange(0, i as int) =~= self.words@);
        while i > 0
            invariant
                i <= self.words.len(),
                self@.words.contains_key(name@) == words_of(
                    self.words@.subrange(0, i as int),
                ).contains_key(name@),
                self@.words.contains_key(name@) ==> self@.words[name@] == words_of(
                    self.words@.subrange(0, i as int),
                )[name@],
            decreases i,
        {
            assert(self.words@.subrange(0, i as int).drop_last() =~= self.words@.subrange(
                0,
                i - 1,
            ));
            if same_text(self.words[i - 1].0.as_str(), name) {
                return Some(&self.words[i - 1].1);
            }
            i -= 1;
        }
        None
    }

    /// The variants of a type, if the type is known.
    pub fn get_variants(&self, adt_name: &str) -> (r: Option<&Vec<Variant>>)
        ensures
            match r {
                Some(v) => self@.types.contains_key(adt_name@) && variants_model(v@)
                    == self@.types[adt_name@],
                None => !self@.types.contains_key(adt_name@),
            },
    {
        let mut i: usize = self.types.len();
        assert(self.types@.subrange(0, i as int) =~= self.types@);
        while i > 0
            invariant
                i <= self.types.len(),
                self@.types.contains_key(adt_name@) == types_of(
                    self.types@.subrange(0, i as int),
                ).contains_key(adt_name@),
                self@.types.contains_key(adt_name@) ==> self@.types[adt_name@] == types_of(
                    self.types@.subrange(0, i as int),
                )[adt_name@],
            decreases i,
        {
            assert(self.types@.subrange(0, i as int).drop_last() =~= self.types@.subrange(
                0,
                i - 1,
            ));
            if same_text(self.types[i - 1].name.as_str(), adt_name) {
                return Some(&self.types[i - 1].variants);
            }
            i -= 1;
        }
        None
    }
}

} // verus!
