//! Abstract syntax of Cem programs, and the mathematical model of each
//! syntactic form.

pub mod types;

use vstd::prelude::*;
use crate::ast::types::{
    Effect, EffectModel, Type, TypeModel, copy_effect, copy_types, effect_model, types_model,
};
use crate::text::{number, push_signed_decimal, same_text, signed_decimal};

verus! {

/// Model of a source location.
pub struct LocModel {
    pub line: usize,
    pub column: usize,
    pub file: Seq<char>,
}

/// Model of an expression.
pub enum ExprModel {
    IntLit(i64, LocModel),
    BoolLit(bool, LocModel),
    StringLit(Seq<char>, LocModel),
    WordCall(Seq<char>, LocModel),
    Quotation(Seq<ExprModel>, LocModel),
    Match { branches: Seq<BranchModel>, loc: LocModel },
    If { then_branch: Box<ExprModel>, else_branch: Box<ExprModel>, loc: LocModel },
    While { condition: Box<ExprModel>, body: Box<ExprModel>, loc: LocModel },
}

/// Model of one branch of a pattern match: the variant it names and its body.
pub struct BranchModel {
    pub variant: Seq<char>,
    pub body: Seq<ExprModel>,
}

/// Model of a variant of a sum type.
pub struct VariantModel {
    pub name: Seq<char>,
    pub fields: Seq<TypeModel>,
}

/// Model of a type definition.
pub struct TypeDefModel {
    pub name: Seq<char>,
    pub type_params: Seq<Seq<char>>,
    pub variants: Seq<VariantModel>,
}

/// Model of a word definition.
pub struct WordModel {
    pub name: Seq<char>,
    pub effect: EffectModel,
    pub body: Seq<ExprModel>,
    pub loc: LocModel,
}

/// Model of a program.
pub struct ProgramModel {
    pub type_defs: Seq<TypeDefModel>,
    pub word_defs: Seq<WordModel>,
}

/// A place in a source file.
#[derive(Debug, PartialEq)]
pub struct SourceLoc {
    pub line: usize,
    pub column: usize,
    pub file: String,
}

/// A complete Cem program.
#[derive(Debug, PartialEq)]
pub struct Program {
    pub type_defs: Vec<TypeDef>,
    pub word_defs: Vec<WordDef>,
}

/// The definition of a sum type.
#[derive(Debug, PartialEq)]
pub struct TypeDef {
    pub name: String,
    pub type_params: Vec<String>,
    pub variants: Vec<Variant>,
}

/// One variant of a sum type.
#[derive(Debug, PartialEq)]
pub struct Variant {
    pub name: String,
    pub fields: Vec<Type>,
}

/// The definition of a word.
#[derive(Debug, PartialEq)]
pub struct WordDef {
    pub name: String,
    pub effect: Effect,
    pub body: Vec<Expr>,
    pub loc: SourceLoc,
}

/// An expression in the body of a word.
#[derive(Debug, PartialEq)]
pub enum Expr {
    /// Integer literal.
    IntLit(i64, SourceLoc),
    /// Boolean literal.
    BoolLit(bool, SourceLoc),
    /// String literal.
    StringLit(String, SourceLoc),
    /// Call of a word by name.
    WordCall(String, SourceLoc),
    /// Quotation: a block of code pushed as a value.
    Quotation(Vec<Expr>, SourceLoc),
    /// Pattern match on the value on top of the stack.
    Match { branches: Vec<MatchBranch>, loc: SourceLoc },
    /// Conditional on the boolean on top of the stack.
    If { then_branch: Box<Expr>, else_branch: Box<Expr>, loc: SourceLoc },
    /// Loop while the condition leaves `true`.
    While { condition: Box<Expr>, body: Box<Expr>, loc: SourceLoc },
}

/// One branch of a pattern match.
#[derive(Debug, PartialEq)]
pub struct MatchBranch {
    pub pattern: Pattern,
    pub body: Vec<Expr>,
}

/// A pattern of a match branch.
#[derive(Debug, PartialEq)]
pub enum Pattern {
    /// Matches the variant of this name and pushes its fields.
    Variant { name: String },
}

/// The model of a source location.
pub open spec fn loc_model(l: SourceLoc) -> LocModel {
    LocModel { line: l.line, column: l.column, file: l.file@ }
}

/// The name that a pattern matches.
pub open spec fn pattern_name(p: Pattern) -> Seq<char> {
    match p {
        Pattern::Variant { name } => name@,
    }
}

/// The model of an expression.
pub open spec fn expr_model(e: Expr) -> ExprModel
    decreases e,
{
    match e {
        Expr::IntLit(n, loc) => ExprModel::IntLit(n, loc_model(loc)),
        Expr::BoolLit(b, loc) => ExprModel::BoolLit(b, loc_model(loc)),
        Expr::StringLit(s, loc) => ExprModel::StringLit(s@, loc_model(loc)),
        Expr::WordCall(name, loc) => ExprModel::WordCall(name@, loc_model(loc)),
        Expr::Quotation(body, loc) => ExprModel::Quotation(exprs_model(body@), loc_model(loc)),
        Expr::Match { branches, loc } => ExprModel::Match {
            branches: branches_model(branches@),
            loc: loc_model(loc),
        },
        Expr::If { then_branch, else_branch, loc } => ExprModel::If {
            then_branch: Box::new(expr_model(*then_branch)),
            else_branch: Box::new(expr_model(*else_branch)),
            loc: loc_model(loc),
        },
        Expr::While { condition, body, loc } => ExprModel::While {
            condition: Box::new(expr_model(*condition)),
            body: Box::new(expr_model(*body)),
            loc: loc_model(loc),
        },
    }
}

/// The models of the expressions of a sequence, in order.
pub open spec fn exprs_model(es: Seq<Expr>) -> Seq<ExprModel>
    decreases es,
{
    Seq::new(
        es.len(),
        |i: int|
            if 0 <= i < es.len() {
                expr_model(es[i])
            } else {
                ExprModel::BoolLit(false, LocModel { line: 0, column: 0, file: Seq::empty() })
            },
    )
}

/// The model of a match branch.
pub open spec fn branch_model(b: MatchBranch) -> BranchModel
    decreases b,
{
    BranchModel { variant: pattern_name(b.pattern), body: exprs_model(b.body@) }
}

/// The models of the branches of a sequence, in order.
pub open spec fn branches_model(bs: Seq<MatchBranch>) -> Seq<BranchModel>
    decreases bs,
{
    Seq::new(
        bs.len(),
        |i: int|
            if 0 <= i < bs.len() {
                branch_model(bs[i])
            } else {
                BranchModel { variant: Seq::empty(), body: Seq::empty() }
            },
    )
}

/// The views of the strings of a sequence, in order.
pub open spec fn strings_model(ss: Seq<String>) -> Seq<Seq<char>> {
    Seq::new(ss.len(), |i: int| ss[i]@)
}

/// The model of a variant.
pub open spec fn variant_model(v: Variant) -> VariantModel {
    VariantModel { name: v.name@, fields: types_model(v.fields@) }
}

/// The models of the variants of a sequence, in order.
pub open spec fn variants_model(vs: Seq<Variant>) -> Seq<VariantModel> {
    Seq::new(vs.len(), |i: int| variant_model(vs[i]))
}

/// The model of a type definition.
pub open spec fn typedef_model(d: TypeDef) -> TypeDefModel {
    TypeDefModel {
        name: d.name@,
        type_params: strings_model(d.type_params@),
        variants: variants_model(d.variants@),
    }
}

/// The models of the type definitions of a sequence, in order.
pub open spec fn typedefs_model(ds: Seq<TypeDef>) -> Seq<TypeDefModel> {
    Seq::new(ds.len(), |i: int| typedef_model(ds[i]))
}

/// The model of a word definition.
pub open spec fn word_model(w: WordDef) -> WordModel {
    WordModel {
        name: w.name@,
        effect: effect_model(w.effect),
        body: exprs_model(w.body@),
        loc: loc_model(w.loc),
    }
}

/// The models of the word definitions of a sequence, in order.
pub open spec fn words_model(ws: Seq<WordDef>) -> Seq<WordModel> {
    Seq::new(ws.len(), |i: int| word_model(ws[i]))
}

impl View for SourceLoc {
    type V = LocModel;

    open spec fn view(&self) -> LocModel {
        loc_model(*self)
    }
}

impl View for Expr {
    type V = ExprModel;

    open spec fn view(&self) -> ExprModel {
        expr_model(*self)
    }
}

impl View for MatchBranch {
    type V = BranchModel;

    open spec fn view(&self) -> BranchModel {
        branch_model(*self)
    }
}

impl View for Variant {
    type V = VariantModel;

    open spec fn view(&self) -> VariantModel {
        variant_model(*self)
    }
}

impl View for TypeDef {
    type V = TypeDefModel;

    open spec fn view(&self) -> TypeDefModel {
        typedef_model(*self)
    }
}

impl View for WordDef {
    type V = WordModel;

    open spec fn view(&self) -> WordModel {
        word_model(*self)
    }
}

impl View for Program {
    type V = ProgramModel;

    open spec fn view(&self) -> ProgramModel {
        ProgramModel {
            type_defs: typedefs_model(self.type_defs@),
            word_defs: words_model(self.word_defs@),
        }
    }
}

/// A copy of a source location.
pub fn copy_loc(l: &SourceLoc) -> (r: SourceLoc)
    ensures
        r@ == l@,
{
    SourceLoc { line: l.line, column: l.column, file: l.file.clone() }
}

/// A copy of a list of strings.
pub fn copy_strings(ss: &Vec<String>) -> (r: Vec<String>)
    ensures
        strings_model(r@) == strings_model(ss@),
{
    let mut out: Vec<String> = Vec::new();
    let mut i: usize = 0;
    while i < ss.len()
        invariant
            i <= ss.len(),
            out.len() == i,
            forall|k: int| 0 <= k < i ==> out@[k]@ == ss@[k]@,
        decreases ss.len() - i,
    {
        out.push(ss[i].clone());
        i += 1;
    }
    assert(strings_model(out@) =~= strings_model(ss@));
    out
}

/// A copy of an expression.
pub fn copy_expr(e: &Expr) -> (r: Expr)
    ensures
        r@ == e@,
    decreases *e,
{
    match e {
        Expr::IntLit(n, loc) => Expr::IntLit(*n, copy_loc(loc)),
        Expr::BoolLit(b, loc) => Expr::BoolLit(*b, copy_loc(loc)),
        Expr::StringLit(s, loc) => Expr::StringLit(s.clone(), copy_loc(loc)),
        Expr::WordCall(name, loc) => Expr::WordCall(name.clone(), copy_loc(loc)),
        Expr::Quotation(body, loc) => Expr::Quotation(copy_exprs(body), copy_loc(loc)),
        Expr::Match { branches, loc } => Expr::Match {
            branches: copy_branches(branches),
            loc: copy_loc(loc),
        },
        Expr::If { then_branch, else_branch, loc } => Expr::If {
            then_branch: Box::new(copy_expr(then_branch)),
            else_branch: Box::new(copy_expr(else_branch)),
            loc: copy_loc(loc),
        },
        Expr::While { condition, body, loc } => Expr::While {
            condition: Box::new(copy_expr(condition)),
            body: Box::new(copy_expr(body)),
            loc: copy_loc(loc),
        },
    }
}

/// A copy of a list of expressions.
pub fn copy_exprs(es: &Vec<Expr>) -> (r: Vec<Expr>)
    ensures
        exprs_model(r@) == exprs_model(es@),
    decreases *es,
{
    let mut out: Vec<Expr> = Vec::new();
    let mut i: usize = 0;
    while i < es.len()
        invariant
            i <= es.len(),
            out.len() == i,
            forall|k: int| 0 <= k < i ==> expr_model(out@[k]) == expr_model(es@[k]),
        decreases es.len() - i,
    {
        let c = copy_expr(&es[i]);
        out.push(c);
        i += 1;
    }
    assert(exprs_model(out@) =~= exprs_model(es@));
    out
}

/// A copy of a match branch.
pub fn copy_branch(b: &MatchBranch) -> (r: MatchBranch)
    ensures
        r@ == b@,
    decreases *b,
{
    let pattern = match &b.pattern {
        Pattern::Variant { name } => Pattern::Variant { name: name.clone() },
    };
    MatchBranch { pattern, body: copy_exprs(&b.body) }
}

/// A copy of a list of match branches.
pub fn copy_branches(bs: &Vec<MatchBranch>) -> (r: Vec<MatchBranch>)
    ensures
        branches_model(r@) == branches_model(bs@),
    decreases *bs,
{
    let mut out: Vec<MatchBranch> = Vec::new();
    let mut i: usize = 0;
    while i < bs.len()
        invariant
            i <= bs.len(),
            out.len() == i,
            forall|k: int| 0 <= k < i ==> branch_model(out@[k]) == branch_model(bs@[k]),
        decreases bs.len() - i,
    {
        let c = copy_branch(&bs[i]);
        out.push(c);
        i += 1;
    }
    assert(branches_model(out@) =~= branches_model(bs@));
    out
}

/// A copy of a variant.
pub fn copy_variant(v: &Variant) -> (r: Variant)
    ensures
        r@ == v@,
{
    Variant { name: v.name.clone(), fields: copy_types(&v.fields) }
}

/// A copy of a list of variants.
pub fn copy_variants(vs: &Vec<Variant>) -> (r: Vec<Variant>)
    ensures
        variants_model(r@) == variants_model(vs@),
{
    let mut out: Vec<Variant> = Vec::new();
    let mut i: usize = 0;
    while i < vs.len()
        invariant
            i <= vs.len(),
            out.len() == i,
            forall|k: int| 0 <= k < i ==> variant_model(out@[k]) == variant_model(vs@[k]),
        decreases vs.len() - i,
    {
        let c = copy_variant(&vs[i]);
        out.push(c);
        i += 1;
    }
    assert(variants_model(out@) =~= variants_model(vs@));
    out
}

/// A copy of a type definition.
pub fn copy_typedef(d: &TypeDef) -> (r: TypeDef)
    ensures
        r@ == d@,
{
    TypeDef {
        name: d.name.clone(),
        type_params: copy_strings(&d.type_params),
        variants: copy_variants(&d.variants),
    }
}

/// A copy of a word definition.
pub fn copy_word(w: &WordDef) -> (r: WordDef)
    ensures
        r@ == w@,
{
    WordDef {
        name: w.name.clone(),
        effect: copy_effect(&w.effect),
        body: copy_exprs(&w.body),
        loc: copy_loc(&w.loc),
    }
}

impl Clone for SourceLoc {
    fn clone(&self) -> (r: Self)
        ensures
            r@ == self@,
    {
        copy_loc(self)
    }
}

impl Clone for Expr {
    fn clone(&self) -> (r: Self)
        ensures
            r@ == self@,
    {
        copy_expr(self)
    }
}

impl Clone for MatchBranch {
    fn clone(&self) -> (r: Self)
        ensures
            r@ == self@,
    {
        copy_branch(self)
    }
}

impl Clone for Pattern {
    fn clone(&self) -> (r: Self)
        ensures
            pattern_name(r) == pattern_name(*self),
    {
        match self {
            Pattern::Variant { name } => Pattern::Variant { name: name.clone() },
        }
    }
}

impl Clone for Variant {
    fn clone(&self) -> (r: Self)
        ensures
            r@ == self@,
    {
        copy_variant(self)
    }
}

impl Clone for TypeDef {
    fn clone(&self) -> (r: Self)
        ensures
            r@ == self@,
    {
        copy_typedef(self)
    }
}

impl Clone for WordDef {
    fn clone(&self) -> (r: Self)
        ensures
            r@ == self@,
    {
        copy_word(self)
    }
}

impl Clone for Program {
    fn clone(&self) -> (r: Self)
        ensures
            r@ == self@,
    {
        let mut type_defs: Vec<TypeDef> = Vec::new();
        let mut i: usize = 0;
        while i < self.type_defs.len()
            invariant
                i <= self.type_defs.len(),
                type_defs.len() == i,
                forall|k: int|
                    0 <= k < i ==> typedef_model(type_defs@[k]) == typedef_model(
                        self.type_defs@[k],
                    ),
            decreases self.type_defs.len() - i,
        {
            let c = copy_typedef(&self.type_defs[i]);
            type_defs.push(c);
            i += 1;
        }
        let mut word_defs: Vec<WordDef> = Vec::new();
        let mut j: usize = 0;
        while j < self.word_defs.len()
            invariant
                j <= self.word_defs.len(),
                word_defs.len() == j,
                forall|k: int|
                    0 <= k < j ==> word_model(word_defs@[k]) == word_model(self.word_defs@[k]),
            decreases self.word_defs.len() - j,
        {
            let c = copy_word(&self.word_defs[j]);
            word_defs.push(c);
            j += 1;
        }
        assert(typedefs_model(type_defs@) =~= typedefs_model(self.type_defs@));
        assert(words_model(word_defs@) =~= words_model(self.word_defs@));
        Program { type_defs, word_defs }
    }
}

impl SourceLoc {
    /// A location at the given line and column of a file.
    pub fn new(line: usize, column: usize, file: String) -> (r: SourceLoc)
        ensures
            r@ == (LocModel { line, column, file: file@ }),
    {
        SourceLoc { line, column, file }
    }

    /// The location of a node that comes from no source file.
    pub fn unknown() -> (r: SourceLoc)
        ensures
            r@ == (LocModel { line: 0, column: 0, file: "<unknown>"@ }),
    {
        SourceLoc { line: 0, column: 0, file: String::from_str("<unknown>") }
    }
}

impl Expr {
    /// The source location of the expression.
    pub fn loc(&self) -> (r: &SourceLoc)
        ensures
            r@ == expr_loc(self@),
    {
        match self {
            Expr::IntLit(_, loc) => loc,
            Expr::BoolLit(_, loc) => loc,
            Expr::StringLit(_, loc) => loc,
            Expr::WordCall(_, loc) => loc,
            Expr::Quotation(_, loc) => loc,
            Expr::Match { loc, .. } => loc,
            Expr::If { loc, .. } => loc,
            Expr::While { loc, .. } => loc,
        }
    }
}

/// The source location that an expression carries.
pub open spec fn expr_loc(e: ExprModel) -> LocModel {
    match e {
        ExprModel::IntLit(_, loc) => loc,
        ExprModel::BoolLit(_, loc) => loc,
        ExprModel::StringLit(_, loc) => loc,
        ExprModel::WordCall(_, loc) => loc,
        ExprModel::Quotation(_, loc) => loc,
        ExprModel::Match { loc, .. } => loc,
        ExprModel::If { loc, .. } => loc,
        ExprModel::While { loc, .. } => loc,
    }
}

/// The position of the first variant at or after `from` that has the given
/// name.
pub open spec fn find_variant(
    variants: Seq<VariantModel>,
    name: Seq<char>,
    from: int,
) -> Option<int>
    decreases variants.len() - from,
{
    if from < 0 || from >= variants.len() {
        None
    } else if variants[from].name == name {
        Some(from)
    } else {
        find_variant(variants, name, from + 1)
    }
}

/// The branches of a pattern match; none for any other expression.
pub open spec fn match_branches(e: ExprModel) -> Seq<BranchModel> {
    match e {
        ExprModel::Match { branches, loc } => branches,
        _ => Seq::empty(),
    }
}

/// The name that a pattern matches.
pub fn pattern_text(p: &Pattern) -> (r: &str)
    ensures
        r@ == pattern_name(*p),
{
    match p {
        Pattern::Variant { name } => name.as_str(),
    }
}

/// The position of the first variant of the given name.
pub fn find_variant_index(variants: &Vec<Variant>, name: &str) -> (r: Option<usize>)
    ensures
        number(r) == find_variant(variants_model(variants@), name@, 0),
        r is Some ==> r->0 < variants.len(),
{
    let mut i: usize = 0;
    while i < variants.len()
        invariant
            i <= variants.len(),
            find_variant(variants_model(variants@), name@, 0) == find_variant(
                variants_model(variants@),
                name@,
                i as int,
            ),
        decreases variants.len() - i,
    {
        if same_text(variants[i].name.as_str(), name) {
            return Some(i);
        }
        i += 1;
    }
    None
}

/// How one branch of a pattern match is written: its pattern, and dots in
/// place of its body.
pub open spec fn branch_text(b: BranchModel) -> Seq<char> {
    "  Variant { name: \""@ + b.variant + "\" } => [ ... ]\n"@
}

/// The branches from position `i` on, each written on a line of its own
/// after `acc`.
pub open spec fn branches_text(acc: Seq<char>, branches: Seq<BranchModel>, i: int) -> Seq<char>
    decreases branches.len() - i,
{
    if i < 0 || i >= branches.len() {
        acc
    } else {
        branches_text(acc + branch_text(branches[i]), branches, i + 1)
    }
}

/// How an expression is written: a literal as in the source, a word call
/// by its name, a quotation in brackets, a pattern match by the patterns of
/// its branches, a conditional and a loop by their keywords.
pub open spec fn expr_text(e: ExprModel) -> Seq<char>
    decreases e, 0nat,
{
    match e {
        ExprModel::IntLit(n, loc) => signed_decimal(n as int),
        ExprModel::BoolLit(b, loc) => if b {
            "true"@
        } else {
            "false"@
        },
        ExprModel::StringLit(s, loc) => "\""@ + s + "\""@,
        ExprModel::WordCall(name, loc) => name,
        ExprModel::Quotation(body, loc) => exprs_text("[ "@, body, 0) + "]"@,
        ExprModel::Match { branches, loc } => branches_text("match\n"@, branches, 0) + "end"@,
        ExprModel::If { then_branch, else_branch, loc } => "if"@,
        ExprModel::While { condition, body, loc } => "while"@,
    }
}

/// The expressions from position `i` on, written after `acc`, each followed
/// by a blank.
pub open spec fn exprs_text(acc: Seq<char>, body: Seq<ExprModel>, i: int) -> Seq<char>
    decreases body, body.len() - i,
{
    if i < 0 || i >= body.len() {
        acc
    } else {
        exprs_text(acc + expr_text(body[i]) + " "@, body, i + 1)
    }
}

/// How an expression is written.
pub fn expr_to_text(e: &Expr) -> (r: String)
    ensures
        r@ == expr_text(e@),
    decreases *e,
{
    match e {
        Expr::IntLit(n, _) => {
            let mut out = String::new();
            push_signed_decimal(&mut out, *n);
            assert(out@ =~= signed_decimal(*n as int));
            out
        },
        Expr::BoolLit(b, _) => {
            if *b {
                String::from_str("true")
            } else {
                String::from_str("false")
            }
        },
        Expr::StringLit(s, _) => {
            let mut out = String::from_str("\"");
            out.append(s.as_str());
            out.append("\"");
            out
        },
        Expr::WordCall(name, _) => name.clone(),
        Expr::Quotation(body, _) => {
            let mut out = exprs_to_text(String::from_str("[ "), body);
            out.append("]");
            out
        },
        Expr::Match { branches, .. } => {
            let mut out = String::from_str("match\n");
            let mut i: usize = 0;
            while i < branches.len()
                invariant
                    i <= branches.len(),
                    branches_text("match\n"@, branches_model(branches@), 0) == branches_text(
                        out@,
                        branches_model(branches@),
                        i as int,
                    ),
                decreases branches.len() - i,
            {
                let mut line = String::from_str("  Variant { name: \"");
                line.append(pattern_text(&branches[i].pattern));
                line.append("\" } => [ ... ]\n");
                out.append(line.as_str());
                i += 1;
            }
            out.append("end");
            out
        },
        Expr::If { .. } => String::from_str("if"),
        Expr::While { .. } => String::from_str("while"),
    }
}

/// The expressions of a list, written after `prefix`, each followed by a
/// blank.
pub fn exprs_to_text(prefix: String, body: &Vec<Expr>) -> (r: String)
    ensures
        r@ == exprs_text(prefix@, exprs_model(body@), 0),
    decreases *body,
{
    let mut out = prefix;
    let mut i: usize = 0;
    while i < body.len()
        invariant
            i <= body.len(),
            exprs_text(prefix@, exprs_model(body@), 0) == exprs_text(
                out@,
                exprs_model(body@),
                i as int,
            ),
        decreases body.len() - i,
    {
        let one = expr_to_text(&body[i]);
        out.append(one.as_str());
        out.append(" ");
        i += 1;
    }
    out
}

impl Expr {
    /// How the expression is written.
    pub fn to_string(&self) -> (r: String)
        ensures
            r@ == expr_text(self@),
    {
        expr_to_text(self)
    }
}

} // verus!
