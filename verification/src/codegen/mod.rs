//! Generation of LLVM IR text from programs.
//!
//! Every word becomes a function that takes the stack and returns the stack.
//! The generator walks the syntax tree and writes text; what it writes is
//! stated in [`model`], and every function here is proved to write exactly
//! that.

pub mod error;
pub mod laws;
pub mod layout;
pub mod lines;
pub mod model;
pub mod primitives;
pub mod runtime;

pub use error::{CodegenError, CodegenResult};
pub use runtime::RuntimeFunction;

use vstd::prelude::*;
use crate::ast::{
    Expr, MatchBranch, Program, SourceLoc, Variant, WordDef, branches_model, exprs_model,
    find_variant_index, match_branches, pattern_text, strings_model, variants_model,
};
use crate::codegen::error::CodegenErrorModel;
use crate::codegen::layout::{
    build_bool_ptr_line, build_fields_ptr_line, build_next_ptr_line, build_tag_ptr_line,
};
use crate::codegen::lines::{
    build_branch_line, build_call_line, build_case_label, build_dbg_suffix,
    build_declaration_line, build_default_label, build_else_label, build_file_line,
    build_jump_line, build_label_line, build_load_line, build_location_line, build_main_text,
    build_match_merge_label, build_merge_label, build_module_flags_text, build_phi_head,
    build_phi_item, build_placeholder_file_line, build_push_bool_line, build_push_int_line,
    build_push_quotation_line, build_push_string_line, build_quotation_header,
    build_quotation_name, build_ret_line, build_store_line, build_string_global_line,
    build_string_global_name, build_string_ptr_line, build_subprogram_line,
    build_subroutine_type_line, build_switch_case_line, build_switch_head, build_tail_call_line,
    build_then_label, build_trunc_line, build_unit_line, build_unit_list_line,
    build_word_header, default_label, main_text, match_merge_label, phi_head,
};
use crate::codegen::model::{
    FileModel, GenModel, IncomingModel, LocationModel, LoweredModel, MatchHead, SubprogramModel,
    SuspendedModel, all_known, annotate, arrivals, bad_match, branch_for, collect_files,
    compile, debug_footer, debug_header, debug_location, declare, emit, emit_cases,
    emit_declarations, emit_files, emit_locations, emit_subprograms, emit_types, find_file,
    find_location, find_type, fresh, has_word, hoist, if_else, if_start, last_slash, lower_bool,
    lower_branch, lower_builtin, lower_call, lower_cases, lower_expr, lower_from, lower_int,
    lower_match, lower_runtime_call, lower_string, lower_word, lower_words, match_start, merge,
    overflow, phi_items, phi_line, push_fields, quotation_end, quotation_start, resolve_callee,
    room, suspend, take_temp, temp_name, variants_at, walk,
};
use crate::codegen::primitives::runtime_name;
use crate::codegen::runtime::{
    RUNTIME_FUNCTION_COUNT, find_runtime, is_callable, lookup_runtime_function, runtime_entry,
    runtime_function_at,
};
use crate::text::{decimal_text, escape_bytes, escape_name_range, escape_range, number, same_text};

verus! {

/// The record of a source file.
pub struct FileRecord {
    pub name: String,
    pub id: usize,
}

/// The record of a word's subprogram.
pub struct Subprogram {
    pub name: String,
    pub file_id: usize,
    pub line: usize,
    pub id: usize,
}

/// The record of a source location inside a subprogram.
pub struct Location {
    pub file_id: usize,
    pub line: usize,
    pub column: usize,
    pub scope: usize,
    pub id: usize,
}

/// What of the enclosing function is set aside while the function of a
/// quotation is written.
pub struct Suspended {
    pub output: String,
    pub temp: usize,
    pub block: String,
    pub scope: Option<usize>,
    pub name: String,
}

impl View for Suspended {
    type V = SuspendedModel;

    open spec fn view(&self) -> SuspendedModel {
        SuspendedModel {
            output: self.output@,
            temp: self.temp as int,
            block: self.block@,
            scope: number(self.scope),
            name: self.name@,
        }
    }
}

/// One way into a merge block.
pub struct Incoming {
    pub value: String,
    pub block: String,
}

/// What lowering an expression hands back: the name of the stack it leaves,
/// and whether the text written ends by returning from the function.
pub struct Lowered {
    pub value: String,
    pub terminated: bool,
}

impl View for FileRecord {
    type V = FileModel;

    open spec fn view(&self) -> FileModel {
        FileModel { name: self.name@, id: self.id as int }
    }
}

impl View for Subprogram {
    type V = SubprogramModel;

    open spec fn view(&self) -> SubprogramModel {
        SubprogramModel {
            name: self.name@,
            file_id: self.file_id as int,
            line: self.line as int,
            id: self.id as int,
        }
    }
}

impl View for Location {
    type V = LocationModel;

    open spec fn view(&self) -> LocationModel {
        LocationModel {
            file_id: self.file_id as int,
            line: self.line as int,
            column: self.column as int,
            scope: self.scope as int,
            id: self.id as int,
        }
    }
}

impl View for Incoming {
    type V = IncomingModel;

    open spec fn view(&self) -> IncomingModel {
        IncomingModel { value: self.value@, block: self.block@ }
    }
}

impl View for Lowered {
    type V = LoweredModel;

    open spec fn view(&self) -> LoweredModel {
        LoweredModel { value: self.value@, terminated: self.terminated }
    }
}

/// The models of the file records of a sequence, in order.
pub open spec fn files_model(fs: Seq<FileRecord>) -> Seq<FileModel> {
    Seq::new(fs.len(), |i: int| fs[i]@)
}

/// The models of the subprogram records of a sequence, in order.
pub open spec fn subprograms_model(ss: Seq<Subprogram>) -> Seq<SubprogramModel> {
    Seq::new(ss.len(), |i: int| ss[i]@)
}

/// The models of the location records of a sequence, in order.
pub open spec fn locations_model(ls: Seq<Location>) -> Seq<LocationModel> {
    Seq::new(ls.len(), |i: int| ls[i]@)
}

/// The models of the ways into a merge block, in order.
pub open spec fn incomings_model(is: Seq<Incoming>) -> Seq<IncomingModel> {
    Seq::new(is.len(), |i: int| is[i]@)
}

/// The characters of a name, if there is one.
pub open spec fn name_of(o: Option<&str>) -> Option<Seq<char>> {
    match o {
        Some(s) => Some(s@),
        None => None,
    }
}

/// The outcome of a lowering step as the model states it: the state reached
/// and what was handed back, or the error.
pub open spec fn lowered_as(r: CodegenResult<Lowered>, g: GenModel) -> Result<
    (GenModel, LoweredModel),
    CodegenErrorModel,
> {
    match r {
        Ok(l) => Ok((g, l@)),
        Err(e) => Err(e@),
    }
}

/// The outcome of a step that hands nothing back, as the model states it.
pub open spec fn state_as(r: CodegenResult<()>, g: GenModel) -> Result<
    GenModel,
    CodegenErrorModel,
> {
    match r {
        Ok(_) => Ok(g),
        Err(e) => Err(e@),
    }
}

/// The outcome of a step that may hand back the name of a stack, as the
/// model states it.
pub open spec fn named_as(r: CodegenResult<Option<String>>, g: GenModel) -> Result<
    (GenModel, Option<Seq<char>>),
    CodegenErrorModel,
> {
    match r {
        Ok(Some(name)) => Ok((g, Some(name@))),
        Ok(None) => Ok((g, None)),
        Err(e) => Err(e@),
    }
}

/// The outcome of a step that hands back text, as the model states it.
pub open spec fn text_as(r: CodegenResult<String>, g: GenModel) -> Result<
    (GenModel, Seq<char>),
    CodegenErrorModel,
> {
    match r {
        Ok(ir) => Ok((g, ir@)),
        Err(e) => Err(e@),
    }
}

/// The generator of LLVM IR text. One generator compiles one program.
pub struct CodeGen {
    output: String,
    hoisted: String,
    temp_counter: usize,
    current_block: String,
    metadata_counter: usize,
    string_counter: usize,
    quotation_counter: usize,
    file_metadata: Vec<FileRecord>,
    compile_unit_id: Option<usize>,
    word_subprograms: Vec<Subprogram>,
    current_subprogram_id: Option<usize>,
    debug_locations: Vec<Location>,
    declared: bool,
}

impl View for CodeGen {
    type V = GenModel;

    closed spec fn view(&self) -> GenModel {
        GenModel {
            output: self.output@,
            hoisted: self.hoisted@,
            temp: self.temp_counter as int,
            block: self.current_block@,
            meta: self.metadata_counter as int,
            strings: self.string_counter as int,
            quotations: self.quotation_counter as int,
            files: files_model(self.file_metadata@),
            unit: number(self.compile_unit_id),
            subprograms: subprograms_model(self.word_subprograms@),
            scope: number(self.current_subprogram_id),
            locations: locations_model(self.debug_locations@),
            declared: self.declared,
        }
    }
}

/// The error of a generator that has run out of numbers.
fn overflow_error() -> (e: CodegenError)
    ensures
        e@ == overflow(),
{
    CodegenError::InternalError(String::from_str("counter overflow"))
}

/// The error of a pattern match whose branches do not all name variants of
/// one declared type.
fn bad_match_error() -> (e: CodegenError)
    ensures
        e@ == bad_match(),
{
    CodegenError::InternalError(
        String::from_str("Match branches must name variants of a declared type"),
    )
}

/// The error of a call that reaches no function.
fn unknown_word_error(name: &str) -> (e: CodegenError)
    ensures
        e@ == (CodegenErrorModel::UnknownWord { name: name@, location: None }),
{
    CodegenError::UnknownWord { name: String::from_str(name), location: None }
}

/// Whether the program defines a word of the given name.
fn defines_word(program: &Program, name: &str) -> (r: bool)
    ensures
        r == has_word(program@.word_defs, name@, 0),
{
    let mut i: usize = 0;
    while i < program.word_defs.len()
        invariant
            i <= program.word_defs.len(),
            has_word(program@.word_defs, name@, 0) == has_word(program@.word_defs, name@, i as int),
        decreases program.word_defs.len() - i,
    {
        if same_text(program.word_defs[i].name.as_str(), name) {
            return true;
        }
        i += 1;
    }
    false
}

/// The function that a call of `name` reaches, if there is one.
pub fn callee_of(program: &Program, name: &str) -> (r: Option<String>)
    ensures
        match r {
            Some(c) => resolve_callee(program@, name@) == Some(c@),
            None => resolve_callee(program@, name@) is None,
        },
{
    if defines_word(program, name) {
        return Some(String::from_str(name));
    }
    let target: &str = match runtime_name(name) {
        Some(t) => t,
        None => name,
    };
    match lookup_runtime_function(target) {
        Some(f) => {
            if is_callable(&f) {
                Some(String::from_str(target))
            } else {
                None
            }
        },
        None => None,
    }
}

/// The position of the last `/` in a path.
fn find_last_slash(bytes: &[u8]) -> (r: Option<usize>)
    ensures
        number(r) == last_slash(bytes@, bytes@.len() as int),
        r is Some ==> r->0 < bytes@.len(),
{
    let mut i: usize = bytes.len();
    while i > 0
        invariant
            i <= bytes@.len(),
            last_slash(bytes@, bytes@.len() as int) == last_slash(bytes@, i as int),
        decreases i,
    {
        if bytes[i - 1] == 0x2F {
            return Some(i - 1);
        }
        i -= 1;
    }
    None
}

/// The instruction that names `r` the stack that arrives at a merge block.
fn build_phi_line(r: &str, incoming: &Vec<Incoming>) -> (text: String)
    ensures
        text@ == phi_line(r@, incomings_model(incoming@)),
{
    let mut text = build_phi_head(r);
    let mut i: usize = 0;
    while i < incoming.len()
        invariant
            i <= incoming.len(),
            phi_items(phi_head(r@), incomings_model(incoming@), 0) == phi_items(
                text@,
                incomings_model(incoming@),
                i as int,
            ),
        decreases incoming.len() - i,
    {
        if i > 0 {
            text.append(", ");
        }
        let item = build_phi_item(incoming[i].value.as_str(), incoming[i].block.as_str());
        text.append(item.as_str());
        i += 1;
    }
    text.append("\n");
    text
}

/// The source files of the words of a program, each once, in the order in
/// which they first occur.
fn source_files(program: &Program) -> (r: Vec<String>)
    ensures
        strings_model(r@) == collect_files(program@.word_defs, Seq::empty(), 0),
{
    let mut found: Vec<String> = Vec::new();
    let mut i: usize = 0;
    assert(strings_model(found@) =~= Seq::<Seq<char>>::empty());
    while i < program.word_defs.len()
        invariant
            i <= program.word_defs.len(),
            collect_files(program@.word_defs, Seq::empty(), 0) == collect_files(
                program@.word_defs,
                strings_model(found@),
                i as int,
            ),
        decreases program.word_defs.len() - i,
    {
        let file = &program.word_defs[i].loc.file;
        let mut known = false;
        let mut k: usize = 0;
        while k < found.len()
            invariant
                k <= found.len(),
                known == exists|m: int| 0 <= m < k && strings_model(found@)[m] == file@,
            decreases found.len() - k,
        {
            if same_text(found[k].as_str(), file.as_str()) {
                known = true;
            }
            assert(strings_model(found@)[k as int] == found@[k as int]@);
            k += 1;
        }
        assert(known == strings_model(found@).contains(file@));
        if !known {
            let ghost before = strings_model(found@);
            found.push(file.clone());
            assert(strings_model(found@) =~= before.push(file@));
        }
        i += 1;
    }
    found
}

/// The position of the first type definition with a variant of the given
/// name.
fn find_type_def(program: &Program, variant: &str) -> (r: Option<usize>)
    ensures
        number(r) == find_type(program@.type_defs, variant@, 0),
        r is Some ==> r->0 < program.type_defs.len(),
{
    let mut i: usize = 0;
    while i < program.type_defs.len()
        invariant
            i <= program.type_defs.len(),
            find_type(program@.type_defs, variant@, 0) == find_type(
                program@.type_defs,
                variant@,
                i as int,
            ),
        decreases program.type_defs.len() - i,
    {
        if find_variant_index(&program.type_defs[i].variants, variant).is_some() {
            return Some(i);
        }
        i += 1;
    }
    None
}

/// The position of the first branch that names the given variant.
fn find_branch(branches: &Vec<MatchBranch>, name: &str) -> (r: Option<usize>)
    ensures
        number(r) == branch_for(branches_model(branches@), name@, 0),
        r is Some ==> r->0 < branches.len(),
{
    let mut i: usize = 0;
    while i < branches.len()
        invariant
            i <= branches.len(),
            branch_for(branches_model(branches@), name@, 0) == branch_for(
                branches_model(branches@),
                name@,
                i as int,
            ),
        decreases branches.len() - i,
    {
        if same_text(pattern_text(&branches[i].pattern), name) {
            return Some(i);
        }
        i += 1;
    }
    None
}

/// Whether every branch names one of the variants.
fn branches_known(variants: &Vec<Variant>, branches: &Vec<MatchBranch>) -> (r: bool)
    ensures
        r == all_known(variants_model(variants@), branches_model(branches@), 0),
{
    let mut i: usize = 0;
    while i < branches.len()
        invariant
            i <= branches.len(),
            all_known(variants_model(variants@), branches_model(branches@), 0) == all_known(
                variants_model(variants@),
                branches_model(branches@),
                i as int,
            ),
        decreases branches.len() - i,
    {
        if find_variant_index(variants, pattern_text(&branches[i].pattern)).is_none() {
            return false;
        }
        i += 1;
    }
    true
}

impl CodeGen {
    /// A new generator, with nothing written.
    pub fn new() -> (r: CodeGen)
        ensures
            r@ == fresh(),
    {
        let r = CodeGen {
            output: String::new(),
            hoisted: String::new(),
            temp_counter: 0,
            current_block: String::from_str("entry"),
            metadata_counter: 0,
            string_counter: 0,
            quotation_counter: 0,
            file_metadata: Vec::new(),
            compile_unit_id: None,
            word_subprograms: Vec::new(),
            current_subprogram_id: None,
            debug_locations: Vec::new(),
            declared: false,
        };
        assert(r@.files =~= Seq::empty());
        assert(r@.subprograms =~= Seq::empty());
        assert(r@.locations =~= Seq::empty());
        r
    }

    /// Takes the next temporary and hands back its name, without `%`.
    fn fresh_temp(&mut self) -> (name: String)
        requires
            old(self)@.temp < usize::MAX,
        ensures
            final(self)@ == take_temp(old(self)@),
            name@ == temp_name(old(self)@),
    {
        let name = decimal_text(self.temp_counter);
        self.temp_counter = self.temp_counter + 1;
        name
    }

    /// Takes the next metadata number.
    fn fresh_metadata_id(&mut self) -> (id: usize)
        requires
            old(self)@.meta < usize::MAX,
        ensures
            final(self)@ == (GenModel { meta: old(self)@.meta + 1, ..old(self)@ }),
            id as int == old(self)@.meta,
    {
        let id = self.metadata_counter;
        self.metadata_counter = self.metadata_counter + 1;
        id
    }

    /// Writes text to the module.
    fn emit(&mut self, text: &str)
        ensures
            final(self)@ == emit(old(self)@, text@),
    {
        self.output.append(text);
    }

    /// Adds text to the hoisted definitions.
    fn hoist(&mut self, text: &str)
        ensures
            final(self)@ == hoist(old(self)@, text@),
    {
        self.hoisted.append(text);
    }

    /// Enters the block `label`.
    fn enter(&mut self, label: String)
        ensures
            final(self)@ == crate::codegen::model::enter(old(self)@, label@),
    {
        self.current_block = label;
    }

    /// Whether the counters leave room for `temps` more temporaries and one
    /// more of each other kind of number.
    fn has_room(&self, temps: u128) -> (r: bool)
        ensures
            r == room(self@, temps as int),
    {
        (self.temp_counter as u128) <= (usize::MAX as u128) && temps <= (usize::MAX as u128) - (
        self.temp_counter as u128) && self.metadata_counter < usize::MAX && self.string_counter
            < usize::MAX && self.quotation_counter < usize::MAX
    }

    /// Escapes a string for a string constant of the IR: of the bytes of
    /// its UTF-8 form, printable ASCII other than the double quote and the
    /// backslash stands for itself, and every other byte, the double quote
    /// and the backslash among them, is written as a backslash and two
    /// upper-case hexadecimal digits.
    pub fn escape_llvm_string(s: &str) -> (r: String)
        ensures
            r@ == escape_bytes(vstd::utf8::encode_utf8(s@)),
    {
        let bytes = s.as_bytes();
        assert(bytes@.subrange(0, bytes@.len() as int) =~= bytes@);
        escape_range(bytes, 0, bytes.len())
    }

    /// The number of the record of a file, if it has one.
    fn file_id(&self, name: &str) -> (r: Option<usize>)
        ensures
            number(r) == find_file(self@.files, name@, 0),
    {
        let mut i: usize = 0;
        while i < self.file_metadata.len()
            invariant
                i <= self.file_metadata.len(),
                find_file(self@.files, name@, 0) == find_file(self@.files, name@, i as int),
            decreases self.file_metadata.len() - i,
        {
            if same_text(self.file_metadata[i].name.as_str(), name) {
                return Some(self.file_metadata[i].id);
            }
            i += 1;
        }
        None
    }

    /// The location record of a source location: gets the record that
    /// exists or makes a new one. `None` outside a word and for a file
    /// without a record.
    fn get_debug_location(&mut self, loc: &SourceLoc) -> (r: Option<usize>)
        requires
            old(self)@.meta < usize::MAX,
        ensures
            (final(self)@, number(r)) == debug_location(old(self)@, loc@),
    {
        let scope = match self.current_subprogram_id {
            Some(s) => s,
            None => {
                return None;
            },
        };
        let file_id = match self.file_id(loc.file.as_str()) {
            Some(f) => f,
            None => {
                return None;
            },
        };
        let mut i: usize = 0;
        while i < self.debug_locations.len()
            invariant
                i <= self.debug_locations.len(),
                *self == *old(self),
                self@.scope == Some(scope as int),
                self@.meta < usize::MAX,
                find_file(self@.files, loc@.file, 0) == Some(file_id as int),
                find_location(
                    self@.locations,
                    file_id as int,
                    loc.line as int,
                    loc.column as int,
                    scope as int,
                    0,
                ) == find_location(
                    self@.locations,
                    file_id as int,
                    loc.line as int,
                    loc.column as int,
                    scope as int,
                    i as int,
                ),
            decreases self.debug_locations.len() - i,
        {
            let l = &self.debug_locations[i];
            assert(self@.locations[i as int] == l@);
            if l.file_id == file_id && l.line == loc.line && l.column == loc.column && l.scope
                == scope {
                return Some(l.id);
            }
            i += 1;
        }
        let id = self.fresh_metadata_id();
        let ghost before = self@.locations;
        self.debug_locations.push(
            Location { file_id, line: loc.line, column: loc.column, scope, id },
        );
        assert(self@.locations =~= before.push(
            LocationModel {
                file_id: file_id as int,
                line: loc.line as int,
                column: loc.column as int,
                scope: scope as int,
                id: id as int,
            },
        ));
        Some(id)
    }

    /// The annotation of an instruction at a source location: empty where
    /// the location has no record.
    fn dbg_annotation(&mut self, loc: &SourceLoc) -> (r: String)
        requires
            old(self)@.meta < usize::MAX,
        ensures
            (final(self)@, r@) == annotate(old(self)@, loc@),
    {
        match self.get_debug_location(loc) {
            Some(id) => build_dbg_suffix(id),
            None => String::new(),
        }
    }

    /// Closes off the function being written: returns the stack it leaves,
    /// unless its text already ends by returning.
    fn end_function(&mut self, l: &Lowered)
        ensures
            final(self)@ == crate::codegen::model::end_function(old(self)@, l@),
    {
        if !l.terminated {
            let line = build_ret_line(l.value.as_str());
            self.emit(line.as_str());
        }
    }

    /// Leaves a branch: jumps to the merge block and records the way in,
    /// unless the branch already ends by returning.
    fn leave_branch(&mut self, l: &Lowered, merge: &str, incoming: &mut Vec<Incoming>)
        ensures
            final(self)@ == crate::codegen::model::leave_branch(old(self)@, l@, merge@),
            incomings_model(final(incoming)@) == arrivals(
                incomings_model(old(incoming)@),
                old(self)@,
                l@,
            ),
    {
        if !l.terminated {
            let ghost before = incomings_model(incoming@);
            incoming.push(Incoming { value: l.value.clone(), block: self.current_block.clone() });
            assert(incomings_model(incoming@) =~= before.push(
                IncomingModel { value: l.value@, block: self.current_block@ },
            ));
            let line = build_jump_line(merge);
            self.emit(line.as_str());
        }
    }

    /// Opens the block where branches meet again and names the stack that
    /// arrives; writes nothing if every branch ends by returning.
    fn finish_merge(&mut self, label: String, incoming: &Vec<Incoming>, unused: String) -> (r:
        CodegenResult<Lowered>)
        ensures
            lowered_as(r, final(self)@) == merge(
                old(self)@,
                label@,
                incomings_model(incoming@),
                unused@,
            ),
    {
        if incoming.len() == 0 {
            return Ok(Lowered { value: unused, terminated: true });
        }
        if self.temp_counter >= usize::MAX {
            return Err(overflow_error());
        }
        let line = build_label_line(label.as_str());
        self.emit(line.as_str());
        self.enter(label);
        let r = self.fresh_temp();
        let phi = build_phi_line(r.as_str(), incoming);
        self.emit(phi.as_str());
        Ok(Lowered { value: r, terminated: false })
    }

    /// Lowers an integer literal.
    fn compile_int(&mut self, n: i64, loc: &SourceLoc, stack: &str) -> (r: Lowered)
        requires
            room(old(self)@, 8),
        ensures
            (final(self)@, r@) == lower_int(old(self)@, n, loc@, stack@),
    {
        let r = self.fresh_temp();
        let dbg = self.dbg_annotation(loc);
        let line = build_push_int_line(r.as_str(), stack, n, dbg.as_str());
        self.emit(line.as_str());
        Lowered { value: r, terminated: false }
    }

    /// Lowers a boolean literal.
    fn compile_bool(&mut self, b: bool, loc: &SourceLoc, stack: &str) -> (r: Lowered)
        requires
            room(old(self)@, 8),
        ensures
            (final(self)@, r@) == lower_bool(old(self)@, b, loc@, stack@),
    {
        let r = self.fresh_temp();
        let dbg = self.dbg_annotation(loc);
        let bit = if b {
            "1"
        } else {
            "0"
        };
        let line = build_push_bool_line(r.as_str(), stack, bit, dbg.as_str());
        self.emit(line.as_str());
        Lowered { value: r, terminated: false }
    }

    /// Lowers a string literal.
    fn compile_string(&mut self, s: &str, loc: &SourceLoc, stack: &str) -> (r: Lowered)
        requires
            room(old(self)@, 8),
        ensures
            (final(self)@, r@) == lower_string(old(self)@, s@, loc@, stack@),
    {
        let bytes = s.as_bytes();
        let global = build_string_global_name(self.string_counter);
        let len: u128 = (bytes.len() as u128) + 1;
        let escaped = Self::escape_llvm_string(s);
        let constant = build_string_global_line(global.as_str(), len, escaped.as_str());
        self.string_counter = self.string_counter + 1;
        self.hoist(constant.as_str());
        let ptr = self.fresh_temp();
        let r = self.fresh_temp();
        let dbg = self.dbg_annotation(loc);
        let first = build_string_ptr_line(ptr.as_str(), len, global.as_str(), dbg.as_str());
        self.emit(first.as_str());
        let second = build_push_string_line(r.as_str(), stack, ptr.as_str(), dbg.as_str());
        self.emit(second.as_str());
        Lowered { value: r, terminated: false }
    }

    /// Lowers a call of `callee`.
    fn compile_call(&mut self, callee: &str, loc: &SourceLoc, stack: &str, tail: bool) -> (r:
        Lowered)
        requires
            room(old(self)@, 8),
        ensures
            (final(self)@, r@) == lower_call(old(self)@, callee@, loc@, stack@, tail),
    {
        let r = self.fresh_temp();
        let dbg = self.dbg_annotation(loc);
        if tail {
            let line = build_tail_call_line(r.as_str(), callee, stack, dbg.as_str());
            self.emit(line.as_str());
            let ret = build_ret_line(r.as_str());
            self.emit(ret.as_str());
            Lowered { value: r, terminated: true }
        } else {
            let line = build_call_line(r.as_str(), callee, stack, dbg.as_str());
            self.emit(line.as_str());
            Lowered { value: r, terminated: false }
        }
    }

    /// Sets the enclosing function aside and starts the function of the next
    /// quotation.
    fn begin_quotation(&mut self) -> (saved: Suspended)
        requires
            room(old(self)@, 8),
        ensures
            final(self)@ == quotation_start(old(self)@),
            saved@ == suspend(old(self)@),
    {
        let name = build_quotation_name(self.quotation_counter);
        let header = build_quotation_header(name.as_str());
        let saved = Suspended {
            output: self.output.clone(),
            temp: self.temp_counter,
            block: self.current_block.clone(),
            scope: self.current_subprogram_id,
            name,
        };
        self.output = header;
        self.temp_counter = 0;
        self.current_block = String::from_str("entry");
        self.current_subprogram_id = None;
        self.quotation_counter = self.quotation_counter + 1;
        saved
    }

    /// Closes off and hoists the function of a quotation, takes the
    /// enclosing function up again and pushes a pointer to the new function.
    fn end_quotation(&mut self, saved: Suspended, l: &Lowered, stack: &str) -> (r: Lowered)
        requires
            saved.temp < usize::MAX,
        ensures
            (final(self)@, r@) == quotation_end(saved@, old(self)@, l@, stack@),
    {
        self.end_function(l);
        self.emit("}\n\n");
        let function = self.output.clone();
        self.hoist(function.as_str());
        self.output = saved.output;
        self.temp_counter = saved.temp;
        self.current_block = saved.block;
        self.current_subprogram_id = saved.scope;
        let r = self.fresh_temp();
        let line = build_push_quotation_line(r.as_str(), stack, saved.name.as_str());
        self.emit(line.as_str());
        Lowered { value: r, terminated: false }
    }

    /// Starts a conditional and enters the block of its first branch. Hands
    /// back the name of the rest of the stack.
    fn begin_if(&mut self, stack: &str) -> (rest: String)
        requires
            room(old(self)@, 8),
        ensures
            (final(self)@, rest@) == if_start(old(self)@, stack@),
    {
        reveal(if_start);
        let id = self.temp_counter;
        self.temp_counter = self.temp_counter + 1;
        let then_name = build_then_label(id);
        let else_name = build_else_label(id);
        let bp = self.fresh_temp();
        let line = build_bool_ptr_line(bp.as_str(), stack);
        self.emit(line.as_str());
        let bv = self.fresh_temp();
        let line = build_load_line(bv.as_str(), "i8", bp.as_str());
        self.emit(line.as_str());
        let c = self.fresh_temp();
        let line = build_trunc_line(c.as_str(), bv.as_str());
        self.emit(line.as_str());
        let rp = self.fresh_temp();
        let line = build_next_ptr_line(rp.as_str(), stack);
        self.emit(line.as_str());
        let rest = self.fresh_temp();
        let line = build_load_line(rest.as_str(), "ptr", rp.as_str());
        self.emit(line.as_str());
        let line = build_branch_line(c.as_str(), then_name.as_str(), else_name.as_str());
        self.emit(line.as_str());
        let line = build_label_line(then_name.as_str());
        self.emit(line.as_str());
        self.enter(then_name);
        rest
    }

    /// Leaves the first branch of the conditional numbered `id` and enters
    /// the block of the second.
    fn begin_else(&mut self, t: &Lowered, id: usize, incoming: &mut Vec<Incoming>)
        ensures
            final(self)@ == if_else(old(self)@, t@, id as int),
            incomings_model(final(incoming)@) == arrivals(
                incomings_model(old(incoming)@),
                old(self)@,
                t@,
            ),
    {
        let merge_name = build_merge_label(id);
        let else_name = build_else_label(id);
        self.leave_branch(t, merge_name.as_str(), incoming);
        let line = build_label_line(else_name.as_str());
        self.emit(line.as_str());
        self.enter(else_name);
    }

    /// Lowers one expression that is not in tail position.
    pub fn compile_expr(&mut self, program: &Program, expr: &Expr, stack: &str) -> (r:
        CodegenResult<Lowered>)
        ensures
            lowered_as(r, final(self)@) == lower_expr(program@, old(self)@, expr@, stack@, false),
    {
        self.compile_expr_with_context(program, expr, stack, false)
    }

    /// Lowers one expression. In tail position a word call becomes a tail
    /// call followed by a return.
    pub fn compile_expr_with_context(
        &mut self,
        program: &Program,
        expr: &Expr,
        stack: &str,
        in_tail_position: bool,
    ) -> (r: CodegenResult<Lowered>)
        ensures
            lowered_as(r, final(self)@) == lower_expr(
                program@,
                old(self)@,
                expr@,
                stack@,
                in_tail_position,
            ),
        decreases *expr, 1nat,
    {
        if !self.has_room(8) {
            return Err(overflow_error());
        }
        match expr {
            Expr::IntLit(n, loc) => Ok(self.compile_int(*n, loc, stack)),
            Expr::BoolLit(b, loc) => Ok(self.compile_bool(*b, loc, stack)),
            Expr::StringLit(s, loc) => Ok(self.compile_string(s.as_str(), loc, stack)),
            Expr::WordCall(name, loc) => {
                match callee_of(program, name.as_str()) {
                    Some(callee) => Ok(
                        self.compile_call(callee.as_str(), loc, stack, in_tail_position),
                    ),
                    None => Err(unknown_word_error(name.as_str())),
                }
            },
            Expr::Quotation(body, _loc) => {
                let saved = self.begin_quotation();
                match self.compile_body(program, body, "stack", true) {
                    Ok(l) => Ok(self.end_quotation(saved, &l, stack)),
                    Err(e) => Err(e),
                }
            },
            Expr::Match { .. } => self.compile_match(program, expr, stack, in_tail_position),
            Expr::If { then_branch, else_branch, loc: _ } => {
                let id = self.temp_counter;
                let rest = self.begin_if(stack);
                let mut incoming: Vec<Incoming> = Vec::new();
                assert(incomings_model(incoming@) =~= Seq::empty());
                let t = match self.compile_branch_quotation(
                    program,
                    then_branch,
                    rest.as_str(),
                    in_tail_position,
                ) {
                    Ok(l) => l,
                    Err(e) => {
                        return Err(e);
                    },
                };
                self.begin_else(&t, id, &mut incoming);
                let f = match self.compile_branch_quotation(
                    program,
                    else_branch,
                    rest.as_str(),
                    in_tail_position,
                ) {
                    Ok(l) => l,
                    Err(e) => {
                        return Err(e);
                    },
                };
                let merge_name = build_merge_label(id);
                self.leave_branch(&f, merge_name.as_str(), &mut incoming);
                self.finish_merge(merge_name, &incoming, t.value)
            },
            Expr::While { .. } => Err(
                CodegenError::Unimplemented { feature: String::from_str("while loops") },
            ),
        }
    }

    /// Lowers the expressions of a body in order, each starting from the
    /// stack that the one before left. Only the last one can be in tail
    /// position.
    fn compile_body(&mut self, program: &Program, body: &Vec<Expr>, stack: &str, tail: bool) -> (r:
        CodegenResult<Lowered>)
        ensures
            lowered_as(r, final(self)@) == lower_from(
                program@,
                old(self)@,
                exprs_model(body@),
                stack@,
                tail,
                0,
            ),
        decreases *body, 0nat,
    {
        let mut current = String::from_str(stack);
        let mut i: usize = 0;
        while i < body.len()
            invariant
                i <= body.len(),
                lower_from(program@, old(self)@, exprs_model(body@), stack@, tail, 0) == lower_from(
                    program@,
                    self@,
                    exprs_model(body@),
                    current@,
                    tail,
                    i as int,
                ),
            decreases body.len() - i,
        {
            let last = i == body.len() - 1;
            let l = match self.compile_expr_with_context(
                program,
                &body[i],
                current.as_str(),
                tail && last,
            ) {
                Ok(l) => l,
                Err(e) => {
                    return Err(e);
                },
            };
            if last {
                return Ok(l);
            }
            current = l.value;
            i += 1;
        }
        Ok(Lowered { value: current, terminated: false })
    }

    /// Lowers a branch of a conditional, which must be a quotation: its body
    /// is lowered in place.
    fn compile_branch_quotation(
        &mut self,
        program: &Program,
        quot: &Expr,
        initial_stack: &str,
        tail: bool,
    ) -> (r: CodegenResult<Lowered>)
        ensures
            lowered_as(r, final(self)@) == lower_branch(
                program@,
                old(self)@,
                quot@,
                initial_stack@,
                tail,
            ),
        decreases *quot, 0nat,
    {
        match quot {
            Expr::Quotation(body, _loc) => self.compile_body(program, body, initial_stack, tail),
            _ => Err(
                CodegenError::InternalError(String::from_str("If branches must be quotations")),
            ),
        }
    }

    /// Starts a pattern match on a value of a type with `count` variants:
    /// reads the tag, the chain of field cells and the rest of the stack,
    /// and writes the multi-way branch. Hands back the names of the chain
    /// and of the rest.
    fn begin_match(&mut self, count: usize, stack: &str) -> (h: (String, String))
        requires
            room(old(self)@, count as int + 8),
        ensures
            match_start(old(self)@, count as int, stack@) == (MatchHead {
                state: final(self)@,
                fields: h.0@,
                rest: h.1@,
            }),
    {
        reveal(match_start);
        let id = self.temp_counter;
        self.temp_counter = self.temp_counter + 1 + count;
        let default_name = build_default_label(id);
        let tp = self.fresh_temp();
        let line = build_tag_ptr_line(tp.as_str(), stack);
        self.emit(line.as_str());
        let tag = self.fresh_temp();
        let line = build_load_line(tag.as_str(), "i32", tp.as_str());
        self.emit(line.as_str());
        let fp = self.fresh_temp();
        let line = build_fields_ptr_line(fp.as_str(), stack);
        self.emit(line.as_str());
        let fields = self.fresh_temp();
        let line = build_load_line(fields.as_str(), "ptr", fp.as_str());
        self.emit(line.as_str());
        let rp = self.fresh_temp();
        let line = build_next_ptr_line(rp.as_str(), stack);
        self.emit(line.as_str());
        let rest = self.fresh_temp();
        let line = build_load_line(rest.as_str(), "ptr", rp.as_str());
        self.emit(line.as_str());
        let line = build_switch_head(tag.as_str(), default_name.as_str());
        self.emit(line.as_str());
        let ghost start = self@;
        let mut i: usize = 0;
        while i < count
            invariant
                i <= count,
                id + count + 8 <= usize::MAX,
                emit_cases(start, id as int, count as int, 0) == emit_cases(
                    self@,
                    id as int,
                    count as int,
                    i as int,
                ),
            decreases count - i,
        {
            let label = build_case_label(id + 1 + i);
            let line = build_switch_case_line(i, label.as_str());
            self.emit(line.as_str());
            i += 1;
        }
        self.emit("  ]\n");
        (fields, rest)
    }

    /// Pushes the `n` fields of a variant onto the stack `rest`: follows the
    /// chain of field cells to its last cell and links that cell to `rest`.
    /// Hands back the name of the new stack.
    fn push_variant_fields(&mut self, n: usize, fields: &str, rest: &str) -> (r: CodegenResult<
        String,
    >)
        ensures
            text_as(r, final(self)@) == push_fields(old(self)@, n as int, fields@, rest@),
    {
        if n == 0 {
            return Ok(String::from_str(rest));
        }
        if (self.temp_counter as u128) + 2 * (n as u128) > (usize::MAX as u128) {
            return Err(overflow_error());
        }
        let mut cell = String::from_str(fields);
        let mut k: usize = 0;
        while k < n - 1
            invariant
                k <= n - 1,
                self@.temp + 2 * (n - k) <= usize::MAX,
                walk(old(self)@, fields@, n - 1) == walk(self@, cell@, n - 1 - k),
            decreases n - 1 - k,
        {
            let np = self.fresh_temp();
            let line = build_next_ptr_line(np.as_str(), cell.as_str());
            self.emit(line.as_str());
            let c = self.fresh_temp();
            let line = build_load_line(c.as_str(), "ptr", np.as_str());
            self.emit(line.as_str());
            cell = c;
            k += 1;
        }
        let bp = self.fresh_temp();
        let line = build_next_ptr_line(bp.as_str(), cell.as_str());
        self.emit(line.as_str());
        let line = build_store_line(rest, bp.as_str());
        self.emit(line.as_str());
        Ok(String::from_str(fields))
    }

    /// Lowers the blocks of the variants, in the order of declaration, and
    /// records the ways into the merge block. The block of a variant that
    /// no branch names leads to the default block.
    fn compile_cases(
        &mut self,
        program: &Program,
        id: usize,
        variants: &Vec<Variant>,
        branches: &Vec<MatchBranch>,
        fields: &str,
        rest: &str,
        tail: bool,
        incoming: &mut Vec<Incoming>,
    ) -> (r: CodegenResult<()>)
        requires
            id + variants.len() + 1 <= usize::MAX,
        ensures
            match r {
                Ok(_) => lower_cases(
                    program@,
                    old(self)@,
                    id as int,
                    variants_model(variants@),
                    branches_model(branches@),
                    fields@,
                    rest@,
                    tail,
                    incomings_model(old(incoming)@),
                    0,
                ) == Ok::<_, CodegenErrorModel>((final(self)@, incomings_model(final(incoming)@))),
                Err(e) => lower_cases(
                    program@,
                    old(self)@,
                    id as int,
                    variants_model(variants@),
                    branches_model(branches@),
                    fields@,
                    rest@,
                    tail,
                    incomings_model(old(incoming)@),
                    0,
                ) == Err::<(GenModel, Seq<IncomingModel>), _>(e@),
            },
        decreases *branches, 0nat,
    {
        let merge_name = build_match_merge_label(id);
        let default_name = build_default_label(id);
        let mut i: usize = 0;
        while i < variants.len()
            invariant
                i <= variants.len(),
                id + variants.len() + 1 <= usize::MAX,
                merge_name@ == match_merge_label(id as int),
                default_name@ == default_label(id as int),
                lower_cases(
                    program@,
                    old(self)@,
                    id as int,
                    variants_model(variants@),
                    branches_model(branches@),
                    fields@,
                    rest@,
                    tail,
                    incomings_model(old(incoming)@),
                    0,
                ) == lower_cases(
                    program@,
                    self@,
                    id as int,
                    variants_model(variants@),
                    branches_model(branches@),
                    fields@,
                    rest@,
                    tail,
                    incomings_model(incoming@),
                    i as int,
                ),
            decreases variants.len() - i,
        {
            let label = build_case_label(id + 1 + i);
            let line = build_label_line(label.as_str());
            self.emit(line.as_str());
            self.enter(label);
            match find_branch(branches, variants[i].name.as_str()) {
                None => {
                    let jump = build_jump_line(default_name.as_str());
                    self.emit(jump.as_str());
                },
                Some(j) => {
                    let start = match self.push_variant_fields(
                        variants[i].fields.len(),
                        fields,
                        rest,
                    ) {
                        Ok(s) => s,
                        Err(e) => {
                            return Err(e);
                        },
                    };
                    let l = match self.compile_body(
                        program,
                        &branches[j].body,
                        start.as_str(),
                        tail,
                    ) {
                        Ok(l) => l,
                        Err(e) => {
                            return Err(e);
                        },
                    };
                    self.leave_branch(&l, merge_name.as_str(), incoming);
                },
            }
            i += 1;
        }
        Ok(())
    }

    /// Lowers a pattern match on the value on top of `stack`.
    fn compile_match(&mut self, program: &Program, expr: &Expr, stack: &str, tail: bool) -> (r:
        CodegenResult<Lowered>)
        ensures
            lowered_as(r, final(self)@) == lower_match(program@, old(self)@, expr@, stack@, tail),
        decreases *expr, 0nat,
    {
        let branches = match expr {
            Expr::Match { branches, .. } => branches,
            _ => {
                assert(match_branches(expr@).len() == 0);
                return Err(
                    CodegenError::InternalError(
                        String::from_str("Match needs at least one branch"),
                    ),
                );
            },
        };
        assert(match_branches(expr@) == branches_model(branches@));
        if branches.len() == 0 {
            return Err(
                CodegenError::InternalError(String::from_str("Match needs at least one branch")),
            );
        }
        let t = match find_type_def(program, pattern_text(&branches[0].pattern)) {
            Some(t) => t,
            None => {
                return Err(bad_match_error());
            },
        };
        let variants = &program.type_defs[t].variants;
        assert(variants_at(program@.type_defs, t as int) == variants_model(variants@));
        if !branches_known(variants, branches) {
            return Err(bad_match_error());
        }
        if !self.has_room((variants.len() as u128) + 8) {
            return Err(overflow_error());
        }
        let id = self.temp_counter;
        let (fields, rest) = self.begin_match(variants.len(), stack);
        let mut incoming: Vec<Incoming> = Vec::new();
        assert(incomings_model(incoming@) =~= Seq::empty());
        match self.compile_cases(
            program,
            id,
            variants,
            branches,
            fields.as_str(),
            rest.as_str(),
            tail,
            &mut incoming,
        ) {
            Ok(_) => {},
            Err(e) => {
                return Err(e);
            },
        }
        let default_name = build_default_label(id);
        let line = build_label_line(default_name.as_str());
        self.emit(line.as_str());
        self.emit("  call void @runtime_error(ptr null)\n  unreachable\n");
        self.finish_merge(build_match_merge_label(id), &incoming, String::from_str(stack))
    }

    /// Gives a word its subprogram record and hands back the record's
    /// number.
    fn register_word_subprogram(&mut self, word: &WordDef) -> (id: usize)
        requires
            old(self)@.meta < usize::MAX,
        ensures
            id as int == old(self)@.meta,
            final(self)@ == (GenModel {
                meta: old(self)@.meta + 1,
                subprograms: old(self)@.subprograms.push(
                    SubprogramModel {
                        name: word@.name,
                        file_id: match find_file(old(self)@.files, word@.loc.file, 0) {
                            Some(f) => f,
                            None => 0,
                        },
                        line: word@.loc.line as int,
                        id: old(self)@.meta,
                    },
                ),
                ..old(self)@
            }),
    {
        let id = self.fresh_metadata_id();
        let file_id = match self.file_id(word.loc.file.as_str()) {
            Some(f) => f,
            None => 0,
        };
        let ghost before = self@.subprograms;
        self.word_subprograms.push(
            Subprogram { name: word.name.clone(), file_id, line: word.loc.line, id },
        );
        assert(self@.subprograms =~= before.push(
            SubprogramModel {
                name: word@.name,
                file_id: file_id as int,
                line: word@.loc.line as int,
                id: id as int,
            },
        ));
        id
    }

    /// Compiles a word to a function.
    fn compile_word(&mut self, program: &Program, word: &WordDef) -> (r: CodegenResult<()>)
        ensures
            state_as(r, final(self)@) == lower_word(program@, old(self)@, word@),
    {
        if self.metadata_counter >= usize::MAX {
            return Err(overflow_error());
        }
        let id = self.register_word_subprogram(word);
        self.temp_counter = 0;
        self.current_block = String::from_str("entry");
        self.current_subprogram_id = Some(id);
        let header = build_word_header(word.name.as_str(), id);
        self.emit(header.as_str());
        let l = match self.compile_body(program, &word.body, "stack", true) {
            Ok(l) => l,
            Err(e) => {
                return Err(e);
            },
        };
        self.end_function(&l);
        self.emit("}\n\n");
        self.current_subprogram_id = None;
        Ok(())
    }

    /// Compiles the words of a program in order.
    fn compile_words(&mut self, program: &Program) -> (r: CodegenResult<()>)
        ensures
            state_as(r, final(self)@) == lower_words(program@, old(self)@, 0),
    {
        let mut i: usize = 0;
        while i < program.word_defs.len()
            invariant
                i <= program.word_defs.len(),
                lower_words(program@, old(self)@, 0) == lower_words(program@, self@, i as int),
            decreases program.word_defs.len() - i,
        {
            match self.compile_word(program, &program.word_defs[i]) {
                Ok(_) => {},
                Err(e) => {
                    return Err(e);
                },
            }
            i += 1;
        }
        Ok(())
    }

    /// Writes the declarations of all runtime functions.
    fn emit_runtime_declarations(&mut self)
        ensures
            final(self)@ == declare(old(self)@),
    {
        self.emit("; Runtime function declarations\n");
        let ghost start = self@;
        let mut i: usize = 0;
        while i < RUNTIME_FUNCTION_COUNT
            invariant
                i <= RUNTIME_FUNCTION_COUNT,
                emit_declarations(start, 0) == emit_declarations(self@, i as int),
            decreases RUNTIME_FUNCTION_COUNT - i,
        {
            let f = runtime_function_at(i);
            let line = build_declaration_line(f.result, f.name, f.params);
            self.emit(line.as_str());
            i += 1;
        }
        self.emit("\n");
        self.declared = true;
    }

    /// Declares all runtime functions in the module.
    pub fn declare_runtime_functions(&mut self) -> (r: CodegenResult<()>)
        ensures
            r is Ok,
            final(self)@ == declare(old(self)@),
    {
        self.emit_runtime_declarations();
        Ok(())
    }

    /// Checks that a runtime function is declared.
    pub fn verify_runtime_function(&self, name: &str) -> (r: CodegenResult<()>)
        ensures
            r is Ok <==> self@.declared && find_runtime(name@, 0) is Some,
            r is Err ==> r->Err_0@ == (CodegenErrorModel::RuntimeError {
                function: name@,
                reason: "Runtime function not declared. Call declare_runtime_functions() first."@,
            }),
    {
        if self.declared && lookup_runtime_function(name).is_some() {
            Ok(())
        } else {
            Err(
                CodegenError::RuntimeError {
                    function: String::from_str(name),
                    reason: String::from_str(
                        "Runtime function not declared. Call declare_runtime_functions() first.",
                    ),
                },
            )
        }
    }

    /// The declared runtime function of the given name.
    pub fn get_runtime_function(&self, name: &str) -> (r: CodegenResult<RuntimeFunction>)
        ensures
            r is Ok <==> self@.declared && find_runtime(name@, 0) is Some,
            r is Ok ==> r->Ok_0@ == runtime_entry(find_runtime(name@, 0)->0),
            r is Err ==> r->Err_0@ == (CodegenErrorModel::RuntimeError {
                function: name@,
                reason: "Runtime function not found. Call declare_runtime_functions() first."@,
            }),
    {
        if self.declared {
            match lookup_runtime_function(name) {
                Some(f) => {
                    return Ok(f);
                },
                None => {},
            }
        }
        Err(
            CodegenError::RuntimeError {
                function: String::from_str(name),
                reason: String::from_str(
                    "Runtime function not found. Call declare_runtime_functions() first.",
                ),
            },
        )
    }

    /// Compiles a built-in operation on `stack`: a call of the runtime
    /// function behind it, of which the name of the new stack is handed
    /// back. A name that is no built-in operation writes nothing and hands
    /// back `None`.
    pub fn compile_builtin(&mut self, name: &str, stack: &str) -> (r: CodegenResult<Option<String>>)
        ensures
            named_as(r, final(self)@) == lower_builtin(old(self)@, name@, stack@),
    {
        match runtime_name(name) {
            Some(target) => self.compile_runtime_call(target, stack),
            None => Ok(None),
        }
    }

    /// Writes a call of a declared runtime function on `stack` and hands
    /// back the name of the new stack.
    pub fn compile_runtime_call(&mut self, fn_name: &str, stack: &str) -> (r: CodegenResult<
        Option<String>,
    >)
        ensures
            named_as(r, final(self)@) == lower_runtime_call(old(self)@, fn_name@, stack@),
    {
        match self.get_runtime_function(fn_name) {
            Ok(_) => {},
            Err(e) => {
                return Err(e);
            },
        }
        if self.temp_counter >= usize::MAX {
            return Err(overflow_error());
        }
        let r = self.fresh_temp();
        let line = build_call_line(r.as_str(), fn_name, stack, "");
        proof {
            reveal_strlit("");
            assert(""@ =~= Seq::<char>::empty());
        }
        self.emit(line.as_str());
        Ok(Some(r))
    }

    /// Writes the entry function, which runs `callee`.
    fn emit_main_function(&mut self, callee: &str)
        ensures
            final(self)@ == emit(old(self)@, main_text(callee@)),
    {
        let text = build_main_text(callee);
        self.emit(text.as_str());
    }

    /// Writes the first part of the debug information: one record for each
    /// source file.
    fn emit_debug_info_header(&mut self, source_files: &Vec<String>) -> (r: CodegenResult<()>)
        ensures
            state_as(r, final(self)@) == debug_header(old(self)@, strings_model(source_files@)),
    {
        if (self.metadata_counter as u128) + (source_files.len() as u128) > (usize::MAX as u128) {
            return Err(overflow_error());
        }
        self.emit("; Debug Information\n\n");
        let ghost start = self@;
        let mut i: usize = 0;
        while i < source_files.len()
            invariant
                i <= source_files.len(),
                self@.meta + (source_files.len() - i) <= usize::MAX,
                emit_files(start, strings_model(source_files@), 0) == emit_files(
                    self@,
                    strings_model(source_files@),
                    i as int,
                ),
            decreases source_files.len() - i,
        {
            let path = source_files[i].as_str().as_bytes();
            let n = path.len();
            let (name, directory) = match find_last_slash(path) {
                Some(k) => (escape_name_range(path, k + 1, n), escape_name_range(path, 0, k)),
                None => {
                    assert(path@.subrange(0, path@.len() as int) =~= path@);
                    (escape_name_range(path, 0, n), String::new())
                },
            };
            let id = self.fresh_metadata_id();
            let ghost before = self@.files;
            self.file_metadata.push(FileRecord { name: source_files[i].clone(), id });
            assert(self@.files =~= before.push(
                FileModel { name: source_files@[i as int]@, id: id as int },
            ));
            let line = build_file_line(id, name.as_str(), directory.as_str());
            self.emit(line.as_str());
            i += 1;
        }
        self.emit("\n");
        Ok(())
    }

    /// Writes the last part of the debug information: the compile unit, the
    /// subprograms with their stub types, the locations and the module
    /// flags.
    fn emit_debug_info_footer(&mut self) -> (r: CodegenResult<()>)
        ensures
            state_as(r, final(self)@) == debug_footer(old(self)@),
    {
        if (self.metadata_counter as u128) + (self.word_subprograms.len() as u128) + 3 > (
        usize::MAX as u128) {
            return Err(overflow_error());
        }
        self.emit("; Debug Info Compile Unit\n");
        let unit = self.fresh_metadata_id();
        self.compile_unit_id = Some(unit);
        let file = if self.file_metadata.len() == 0 {
            let placeholder = self.fresh_metadata_id();
            let line = build_placeholder_file_line(placeholder);
            self.emit(line.as_str());
            placeholder
        } else {
            self.file_metadata[0].id
        };
        let line = build_unit_line(unit, file);
        self.emit(line.as_str());
        self.emit("\n; DISubprogram metadata for each word\n");
        let types = self.metadata_counter;
        let count = self.word_subprograms.len();
        self.metadata_counter = self.metadata_counter + count;
        let ghost g3 = self@;
        let mut i: usize = 0;
        while i < count
            invariant
                i <= count,
                count == self.word_subprograms.len(),
                types + count <= usize::MAX,
                self@.meta == types + count,
                self@.meta < usize::MAX,
                emit_subprograms(g3, types as int, unit as int, 0) == emit_subprograms(
                    self@,
                    types as int,
                    unit as int,
                    i as int,
                ),
            decreases count - i,
        {
            let s = &self.word_subprograms[i];
            let line = build_subprogram_line(
                s.id,
                s.name.as_str(),
                s.file_id,
                s.line,
                types + i,
                unit,
            );
            self.emit(line.as_str());
            i += 1;
        }
        self.emit("\n; Type metadata (stubs)\n");
        let ghost g4 = self@;
        let mut k: usize = 0;
        while k < count
            invariant
                k <= count,
                types + count <= usize::MAX,
                self@.meta == types + count,
                self@.meta < usize::MAX,
                emit_types(g4, types as int, count as int, 0) == emit_types(
                    self@,
                    types as int,
                    count as int,
                    k as int,
                ),
            decreases count - k,
        {
            let line = build_subroutine_type_line(types + k);
            self.emit(line.as_str());
            k += 1;
        }
        if self.debug_locations.len() > 0 {
            self.emit("\n; DILocation metadata\n");
            let ghost g5 = self@;
            let mut m: usize = 0;
            while m < self.debug_locations.len()
                invariant
                    m <= self.debug_locations.len(),
                    self@.meta == g5.meta,
                    self@.meta < usize::MAX,
                    emit_locations(g5, 0) == emit_locations(self@, m as int),
                decreases self.debug_locations.len() - m,
            {
                let l = &self.debug_locations[m];
                let line = build_location_line(l.id, l.line, l.column, l.scope);
                self.emit(line.as_str());
                m += 1;
            }
        }
        self.emit("\n");
        let line = build_unit_list_line(unit);
        self.emit(line.as_str());
        let flags = self.fresh_metadata_id();
        let text = build_module_flags_text(flags);
        self.emit(text.as_str());
        self.emit("\n");
        Ok(())
    }

    /// Compiles a program to LLVM IR text without an entry function. After
    /// an error the generator holds no text.
    pub fn compile_program(&mut self, program: &Program) -> (r: CodegenResult<String>)
        ensures
            text_as(r, final(self)@) == compile(program@, old(self)@, None),
            r is Err ==> final(self)@.output.len() == 0 && final(self)@.hoisted.len() == 0,
    {
        self.compile_program_with_main(program, None)
    }

    /// Compiles a program to LLVM IR text. With `entry_word`, the text ends
    /// with an entry function that runs that word. After an error the
    /// generator holds no text: no part of a program that failed is handed
    /// out.
    pub fn compile_program_with_main(&mut self, program: &Program, entry_word: Option<&str>) -> (r:
        CodegenResult<String>)
        ensures
            text_as(r, final(self)@) == compile(program@, old(self)@, name_of(entry_word)),
            r is Err ==> final(self)@.output.len() == 0 && final(self)@.hoisted.len() == 0,
    {
        match self.compile_all(program, entry_word) {
            Ok(ir) => Ok(ir),
            Err(e) => {
                self.output = String::new();
                self.hoisted = String::new();
                Err(e)
            },
        }
    }

    /// Writes all parts of the text of a program, in order.
    fn compile_all(&mut self, program: &Program, entry_word: Option<&str>) -> (r: CodegenResult<
        String,
    >)
        ensures
            text_as(r, final(self)@) == compile(program@, old(self)@, name_of(entry_word)),
    {
        self.emit("; Cem Compiler - Generated LLVM IR\n\n");
        self.emit_runtime_declarations();
        let files = source_files(program);
        match self.emit_debug_info_header(&files) {
            Ok(_) => {},
            Err(e) => {
                return Err(e);
            },
        }
        match self.compile_words(program) {
            Ok(_) => {},
            Err(e) => {
                return Err(e);
            },
        }
        match entry_word {
            Some(name) => match callee_of(program, name) {
                Some(callee) => {
                    self.emit_main_function(callee.as_str());
                },
                None => {
                    return Err(unknown_word_error(name));
                },
            },
            None => {},
        }
        match self.emit_debug_info_footer() {
            Ok(_) => {},
            Err(e) => {
                return Err(e);
            },
        }
        Ok(self.emit_ir())
    }

    /// The text generated so far: the hoisted definitions followed by the
    /// module text.
    pub fn emit_ir(&self) -> (r: String)
        ensures
            r@ == self@.hoisted + self@.output,
    {
        let mut ir = self.hoisted.clone();
        ir.append(self.output.as_str());
        ir
    }
}

impl Default for CodeGen {
    fn default() -> (r: CodeGen)
        ensures
            r@ == fresh(),
    {
        CodeGen::new()
    }
}

} // verus!
