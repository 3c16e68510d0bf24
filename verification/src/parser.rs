//! The interface-file parser.
//!
//! An interface file has an `imports { .. }` and an `exports { .. }` section.
//! Each line of a section declares a function `name(a: T, b: U) -> R`; a
//! group `name[ .. ]` declares a multi function whose members share one
//! wasm import.
use vstd::prelude::*;
use crate::text::{chars_of, string_of, trim, trimmed_bounds};
use crate::value_type::{
    find_param_type, find_return_type, opt_string_view, opt_type_view, str_is, ParamType,
    ReturnType, ValueType, ValueTypeModel, ValueTypePool,
};

verus! {

/// Functions with at least this many parameters pass them through the
/// big-call argument buffer.
pub const BIG_CALL_MIN_PARAMS: usize = 16;

/// No function may have more parameters than this.
pub const BIG_CALL_MAX_PARAMS: usize = 32;

/// The two sections of an interface file.
#[derive(Debug, PartialEq, Eq, Clone, Copy, Structural)]
pub enum TopLevelSection {
    Imports,
    Exports,
}

/// A function parameter.
#[derive(Debug, PartialEq)]
pub struct Param {
    pub name: String,
    pub param_type: ValueType,
}

/// A function declared in an interface.
#[derive(Debug, PartialEq)]
pub struct Func {
    pub name: String,
    pub params: Vec<Param>,
    pub ret: Option<ValueType>,
    /// Whether the arguments go through the big-call buffer.
    pub big_call: bool,
}

/// A group of functions that share one wasm import.
#[derive(Debug, PartialEq)]
pub struct MultiFunc {
    pub name: String,
    pub funcs: Vec<Func>,
}

/// An entry of a section.
#[derive(Debug, PartialEq)]
pub enum AnyFunc {
    Normal(Func),
    MultiFunc(MultiFunc),
}

/// A parsed interface file.
#[derive(Debug, PartialEq)]
pub struct Interface {
    pub imports: Vec<AnyFunc>,
    pub exports: Vec<AnyFunc>,
}

/// Why an interface file was refused.
#[derive(Debug, PartialEq, Eq, Clone, Copy, Structural)]
pub enum ParseError {
    /// A section starts while a section of the same kind is open.
    SectionRepeated,
    /// A `{` follows a word other than `imports` or `exports`.
    UnknownSection,
    /// A function starts while another one is still open.
    FuncAlreadyOpen,
    /// A function or multi function is declared outside any section.
    NoSection,
    /// A function name is already taken in its section.
    DuplicateFuncName,
    /// Parameters or a return type appear with no open function.
    NoOpenFunc,
    /// A parameter name follows another with no type between them.
    ParamNameAlreadyOpen,
    /// A parameter name is already taken in its function.
    DuplicateParamName,
    /// A parameter type appears with no open function or parameter name.
    MissingParamName,
    /// A parameter type names no type of the pool that may be a parameter.
    UnknownParamType,
    /// A function has more than [`BIG_CALL_MAX_PARAMS`] parameters.
    TooManyParams,
    /// A multi function starts inside another one.
    MultiFuncAlreadyOpen,
    /// A `]` closes no multi function.
    NoOpenMultiFunc,
    /// A return type has a `-` or `>` out of place.
    MisplacedArrow,
    /// A return type names no type of the pool.
    UnknownReturnType,
    /// The file has no `imports` section.
    MissingImports,
    /// The file has no `exports` section.
    MissingExports,
}

pub struct ParamModel {
    pub name: Seq<char>,
    pub param_type: ValueTypeModel,
}

pub struct FuncModel {
    pub name: Seq<char>,
    pub params: Seq<ParamModel>,
    pub ret: Option<ValueTypeModel>,
    pub big_call: bool,
}

pub struct MultiFuncModel {
    pub name: Seq<char>,
    pub funcs: Seq<FuncModel>,
}

pub enum AnyFuncModel {
    Normal(FuncModel),
    Multi(MultiFuncModel),
}

pub struct InterfaceModel {
    pub imports: Seq<AnyFuncModel>,
    pub exports: Seq<AnyFuncModel>,
}

pub open spec fn params_view(v: Seq<Param>) -> Seq<ParamModel> {
    v.map_values(|p: Param| p@)
}

pub open spec fn funcs_view(v: Seq<Func>) -> Seq<FuncModel> {
    v.map_values(|f: Func| f@)
}

pub open spec fn anys_view(v: Seq<AnyFunc>) -> Seq<AnyFuncModel> {
    v.map_values(|a: AnyFunc| a@)
}

impl View for Param {
    type V = ParamModel;

    open spec fn view(&self) -> ParamModel {
        ParamModel { name: self.name@, param_type: self.param_type@ }
    }
}

impl View for Func {
    type V = FuncModel;

    open spec fn view(&self) -> FuncModel {
        FuncModel {
            name: self.name@,
            params: params_view(self.params@),
            ret: opt_type_view(self.ret),
            big_call: self.big_call,
        }
    }
}

impl View for MultiFunc {
    type V = MultiFuncModel;

    open spec fn view(&self) -> MultiFuncModel {
        MultiFuncModel { name: self.name@, funcs: funcs_view(self.funcs@) }
    }
}

impl View for AnyFunc {
    type V = AnyFuncModel;

    open spec fn view(&self) -> AnyFuncModel {
        match self {
            AnyFunc::Normal(f) => AnyFuncModel::Normal(f@),
            AnyFunc::MultiFunc(m) => AnyFuncModel::Multi(m@),
        }
    }
}

impl View for Interface {
    type V = InterfaceModel;

    open spec fn view(&self) -> InterfaceModel {
        InterfaceModel { imports: anys_view(self.imports@), exports: anys_view(self.exports@) }
    }
}

pub open spec fn any_name(a: AnyFuncModel) -> Seq<char> {
    match a {
        AnyFuncModel::Normal(f) => f.name,
        AnyFuncModel::Multi(m) => m.name,
    }
}

impl AnyFunc {
    /// The entry's name.
    pub fn name(&self) -> (res: &String)
        ensures
            res@ == any_name(self@),
    {
        match self {
            AnyFunc::Normal(n) => &n.name,
            AnyFunc::MultiFunc(m) => &m.name,
        }
    }
}

/// The parser's state between two characters.
pub struct ParserState {
    /// The open section and its entries so far.
    pub section: Option<(TopLevelSection, Seq<AnyFuncModel>)>,
    /// The entries of the last closed imports section.
    pub imports: Option<Seq<AnyFuncModel>>,
    /// The entries of the last closed exports section.
    pub exports: Option<Seq<AnyFuncModel>>,
    /// The open multi function.
    pub multi: Option<MultiFuncModel>,
    /// The open function.
    pub func: Option<FuncModel>,
    /// A parameter name that awaits its type.
    pub param_name: Option<Seq<char>>,
    /// Whether the rest of the line is a return type.
    pub ret_parsing: bool,
    /// Whether a `-` awaits its `>`.
    pub arrow: bool,
    /// The characters since the last delimiter.
    pub word: Seq<char>,
}

pub open spec fn initial_state() -> ParserState {
    ParserState {
        section: None,
        imports: None,
        exports: None,
        multi: None,
        func: None,
        param_name: None,
        ret_parsing: false,
        arrow: false,
        word: Seq::empty(),
    }
}

/// Characters that end a word.
pub open spec fn is_delimiter(c: char) -> bool {
    c == ':' || c == '(' || c == ')' || c == ',' || c == '{' || c == '}' || c == '[' || c == ']'
}

/// Stores the entries of a section that is closed.
pub open spec fn collect(st: ParserState, kind: TopLevelSection, funcs: Seq<AnyFuncModel>) -> ParserState {
    match kind {
        TopLevelSection::Imports => ParserState { imports: Some(funcs), ..st },
        TopLevelSection::Exports => ParserState { exports: Some(funcs), ..st },
    }
}

/// Opens a section of kind `to`, closing the open one.
pub open spec fn change_section(st: ParserState, to: TopLevelSection) -> Result<ParserState, ParseError> {
    match st.section {
        Some((kind, funcs)) => if kind == to {
            Err(ParseError::SectionRepeated)
        } else {
            Ok(ParserState { section: Some((to, Seq::empty())), ..collect(st, kind, funcs) })
        },
        None => Ok(ParserState { section: Some((to, Seq::empty())), ..st }),
    }
}

pub open spec fn name_taken(funcs: Seq<AnyFuncModel>, name: Seq<char>) -> bool {
    exists|i: int| 0 <= i < funcs.len() && any_name(#[trigger] funcs[i]) == name
}

pub open spec fn param_taken(params: Seq<ParamModel>, name: Seq<char>) -> bool {
    exists|i: int| 0 <= i < params.len() && (#[trigger] params[i]).name == name
}

/// Opens a function named `name`.
pub open spec fn start_func(st: ParserState, name: Seq<char>) -> Result<ParserState, ParseError> {
    if st.func is Some {
        Err(ParseError::FuncAlreadyOpen)
    } else {
        match st.section {
            None => Err(ParseError::NoSection),
            Some((_, funcs)) => if name_taken(funcs, name) {
                Err(ParseError::DuplicateFuncName)
            } else {
                Ok(
                    ParserState {
                        func: Some(
                            FuncModel { name, params: Seq::empty(), ret: None, big_call: false },
                        ),
                        ..st
                    },
                )
            },
        }
    }
}

/// A `)` with no parameter before it: the return type follows.
pub open spec fn close_params(st: ParserState) -> Result<ParserState, ParseError> {
    if st.func is None {
        Err(ParseError::NoOpenFunc)
    } else {
        Ok(ParserState { ret_parsing: true, ..st })
    }
}

/// A parameter name, before its `:`.
pub open spec fn open_param(st: ParserState, name: Seq<char>) -> Result<ParserState, ParseError> {
    if st.param_name is Some {
        Err(ParseError::ParamNameAlreadyOpen)
    } else {
        match st.func {
            None => Err(ParseError::NoOpenFunc),
            Some(f) => if param_taken(f.params, name) {
                Err(ParseError::DuplicateParamName)
            } else {
                Ok(ParserState { param_name: Some(name), ..st })
            },
        }
    }
}

/// A parameter type, before its `,` or `)`.
pub open spec fn push_param(st: ParserState, ty: Seq<char>, c: char, pool: Seq<ValueTypeModel>) -> Result<ParserState, ParseError> {
    match (st.func, st.param_name) {
        (Some(f), Some(name)) => match find_param_type(pool, ty) {
            None => Err(ParseError::UnknownParamType),
            Some(t) => {
                let params = f.params.push(ParamModel { name, param_type: t });
                if params.len() > BIG_CALL_MAX_PARAMS {
                    Err(ParseError::TooManyParams)
                } else {
                    Ok(
                        ParserState {
                            func: Some(
                                FuncModel {
                                    params,
                                    big_call: f.big_call || params.len() >= BIG_CALL_MIN_PARAMS
                                        || st.multi is Some,
                                    ..f
                                },
                            ),
                            param_name: None,
                            ret_parsing: if c == ')' {
                                true
                            } else {
                                st.ret_parsing
                            },
                            ..st
                        },
                    )
                }
            },
        },
        _ => Err(ParseError::MissingParamName),
    }
}

/// Opens a multi function named `name`.
pub open spec fn start_multi(st: ParserState, name: Seq<char>) -> Result<ParserState, ParseError> {
    if st.multi is Some {
        Err(ParseError::MultiFuncAlreadyOpen)
    } else {
        Ok(ParserState { multi: Some(MultiFuncModel { name, funcs: Seq::empty() }), ..st })
    }
}

/// Closes the open multi function and adds it to the section.
pub open spec fn finish_multi(st: ParserState) -> Result<ParserState, ParseError> {
    match st.multi {
        None => Err(ParseError::NoOpenMultiFunc),
        Some(m) => match st.section {
            None => Err(ParseError::NoSection),
            Some((kind, funcs)) => Ok(
                ParserState {
                    section: Some((kind, funcs.push(AnyFuncModel::Multi(m)))),
                    multi: None,
                    ..st
                },
            ),
        },
    }
}

/// A delimiter: the trimmed word before it decides what it means.
pub open spec fn delimiter_step(st: ParserState, c: char, pool: Seq<ValueTypeModel>) -> Result<ParserState, ParseError> {
    let w = trim(st.word);
    let st = ParserState { word: Seq::empty(), ..st };
    if c == '{' {
        if w == "imports"@ {
            change_section(st, TopLevelSection::Imports)
        } else if w == "exports"@ {
            change_section(st, TopLevelSection::Exports)
        } else {
            Err(ParseError::UnknownSection)
        }
    } else if c == '(' {
        start_func(st, w)
    } else if c == ')' && w.len() == 0 {
        close_params(st)
    } else if c == ':' {
        open_param(st, w)
    } else if c == ',' || c == ')' {
        push_param(st, w, c, pool)
    } else if c == '[' {
        start_multi(st, w)
    } else if c == ']' && w.len() == 0 {
        finish_multi(st)
    } else {
        Ok(st)
    }
}

/// Adds a finished function to the open multi function, or else to the
/// open section.
pub open spec fn add_func(st: ParserState, f: FuncModel) -> Result<ParserState, ParseError> {
    match st.multi {
        Some(m) => Ok(
            ParserState { multi: Some(MultiFuncModel { funcs: m.funcs.push(f), ..m }), ..st },
        ),
        None => match st.section {
            None => Err(ParseError::NoSection),
            Some((kind, funcs)) => Ok(
                ParserState { section: Some((kind, funcs.push(AnyFuncModel::Normal(f)))), ..st },
            ),
        },
    }
}

/// What follows the last `->` of `s` (all of `s` when there is none).
pub open spec fn after_last_arrow(s: Seq<char>) -> Seq<char>
    decreases s.len(),
{
    if s.len() < 2 {
        s
    } else if s[s.len() - 2] == '-' && s[s.len() - 1] == '>' {
        Seq::empty()
    } else {
        after_last_arrow(s.drop_last()).push(s.last())
    }
}

/// The end of a declaration line: the open function, with the return type
/// that the line names, if any, is finished.
pub open spec fn end_of_line(st: ParserState, pool: Seq<ValueTypeModel>) -> Result<ParserState, ParseError> {
    match st.func {
        None => Err(ParseError::NoOpenFunc),
        Some(f) => {
            let w = trim(st.word);
            let st2 = ParserState { func: None, word: Seq::empty(), ret_parsing: false, ..st };
            if w.len() == 0 {
                add_func(st2, f)
            } else {
                match find_return_type(pool, trim(after_last_arrow(w))) {
                    None => Err(ParseError::UnknownReturnType),
                    Some(t) => add_func(st2, FuncModel { ret: Some(t), ..f }),
                }
            }
        },
    }
}

/// A character that is no delimiter: it joins the word, after the checks
/// that a return type asks for.
pub open spec fn other_step(st: ParserState, c: char, pool: Seq<ValueTypeModel>) -> Result<ParserState, ParseError> {
    let r = if st.ret_parsing {
        if c == '-' {
            Ok(ParserState { arrow: true, ..st })
        } else if c == '>' {
            if st.arrow {
                Ok(ParserState { arrow: false, ..st })
            } else {
                Err(ParseError::MisplacedArrow)
            }
        } else if c == '\n' {
            end_of_line(st, pool)
        } else if st.arrow {
            Err(ParseError::MisplacedArrow)
        } else {
            Ok(st)
        }
    } else {
        Ok(st)
    };
    match r {
        Ok(s) => Ok(ParserState { word: s.word.push(c), ..s }),
        Err(e) => Err(e),
    }
}

/// The parser's step on one character.
pub open spec fn step(st: ParserState, c: char, pool: Seq<ValueTypeModel>) -> Result<ParserState, ParseError> {
    if is_delimiter(c) {
        delimiter_step(st, c, pool)
    } else {
        other_step(st, c, pool)
    }
}

/// The state after reading `input`, or the first refusal.
pub open spec fn run(input: Seq<char>, pool: Seq<ValueTypeModel>) -> Result<ParserState, ParseError>
    decreases input.len(),
{
    if input.len() == 0 {
        Ok(initial_state())
    } else {
        match run(input.drop_last(), pool) {
            Ok(st) => step(st, input.last(), pool),
            Err(e) => Err(e),
        }
    }
}

/// The interface at the end of the input: the open section is closed, and
/// both sections must have been seen.
pub open spec fn finish(st: ParserState) -> Result<InterfaceModel, ParseError> {
    let st = match st.section {
        Some((kind, funcs)) => collect(st, kind, funcs),
        None => st,
    };
    match st.imports {
        None => Err(ParseError::MissingImports),
        Some(imports) => match st.exports {
            None => Err(ParseError::MissingExports),
            Some(exports) => Ok(InterfaceModel { imports, exports }),
        },
    }
}

/// The interface that `input` describes over the value types of `pool`,
/// or why it is refused.
pub open spec fn spec_parse(input: Seq<char>, pool: Seq<ValueTypeModel>) -> Result<InterfaceModel, ParseError> {
    match run(input, pool) {
        Ok(st) => finish(st),
        Err(e) => Err(e),
    }
}

pub open spec fn step_result(res: Result<(), ParseError>, spec: Result<ParserState, ParseError>, after: ParserState) -> bool {
    match res {
        Ok(()) => spec == Ok::<ParserState, ParseError>(after),
        Err(e) => spec == Err::<ParserState, ParseError>(e),
    }
}

struct Section {
    kind: TopLevelSection,
    funcs: Vec<AnyFunc>,
}

struct Parser {
    section: Option<Section>,
    imports: Option<Vec<AnyFunc>>,
    exports: Option<Vec<AnyFunc>>,
    multi: Option<MultiFunc>,
    func: Option<Func>,
    param_name: Option<String>,
    ret_parsing: bool,
    arrow: bool,
    word: Vec<char>,
}

spec fn opt_anys_view(o: Option<Vec<AnyFunc>>) -> Option<Seq<AnyFuncModel>> {
    match o {
        Some(v) => Some(anys_view(v@)),
        None => None,
    }
}

spec fn opt_section_view(o: Option<Section>) -> Option<(TopLevelSection, Seq<AnyFuncModel>)> {
    match o {
        Some(s) => Some((s.kind, anys_view(s.funcs@))),
        None => None,
    }
}

spec fn opt_multi_view(o: Option<MultiFunc>) -> Option<MultiFuncModel> {
    match o {
        Some(m) => Some(m@),
        None => None,
    }
}

spec fn opt_func_view(o: Option<Func>) -> Option<FuncModel> {
    match o {
        Some(f) => Some(f@),
        None => None,
    }
}

proof fn lemma_anys_push(v: Seq<AnyFunc>, a: AnyFunc)
    ensures
        anys_view(v.push(a)) == anys_view(v).push(a@),
{
    assert(anys_view(v.push(a)) =~= anys_view(v).push(a@));
}

proof fn lemma_funcs_push(v: Seq<Func>, f: Func)
    ensures
        funcs_view(v.push(f)) == funcs_view(v).push(f@),
{
    assert(funcs_view(v.push(f)) =~= funcs_view(v).push(f@));
}

proof fn lemma_params_push(v: Seq<Param>, p: Param)
    ensures
        params_view(v.push(p)) == params_view(v).push(p@),
{
    assert(params_view(v.push(p)) =~= params_view(v).push(p@));
}

/// Whether some entry of `funcs` is named `name`.
fn any_named(funcs: &Vec<AnyFunc>, name: &String) -> (res: bool)
    ensures
        res == name_taken(anys_view(funcs@), name@),
{
    let mut i: usize = 0;
    while i < funcs.len()
        invariant
            i <= funcs.len(),
            forall|j: int| 0 <= j < i ==> any_name(#[trigger] anys_view(funcs@)[j]) != name@,
        decreases funcs.len() - i,
    {
        if *funcs[i].name() == *name {
            assert(any_name(anys_view(funcs@)[i as int]) == name@);
            return true;
        }
        i = i + 1;
    }
    false
}

/// Whether some parameter of `params` is named `name`.
fn param_named(params: &Vec<Param>, name: &String) -> (res: bool)
    ensures
        res == param_taken(params_view(params@), name@),
{
    let mut i: usize = 0;
    while i < params.len()
        invariant
            i <= params.len(),
            forall|j: int| 0 <= j < i ==> (#[trigger] params_view(params@)[j]).name != name@,
        decreases params.len() - i,
    {
        if params[i].name == *name {
            assert(params_view(params@)[i as int].name == name@);
            return true;
        }
        i = i + 1;
    }
    false
}

/// `v[start..end]` as a vector.
fn sub_chars(v: &Vec<char>, start: usize, end: usize) -> (res: Vec<char>)
    requires
        start <= end <= v.len(),
    ensures
        res@ == v@.subrange(start as int, end as int),
{
    let mut res: Vec<char> = Vec::new();
    let mut k = start;
    while k < end
        invariant
            start <= k <= end <= v.len(),
            res@ == v@.subrange(start as int, k as int),
        decreases end - k,
    {
        res.push(v[k]);
        assert(v@.subrange(start as int, k + 1) =~= v@.subrange(start as int, k as int).push(v@[k as int]));
        k = k + 1;
    }
    res
}

/// The index where what follows the last `->` of `s` starts.
fn after_last_arrow_start(s: &Vec<char>) -> (res: usize)
    ensures
        res <= s.len(),
        s@.skip(res as int) == after_last_arrow(s@),
{
    let mut j: usize = s.len();
    assert(s@.take(j as int) =~= s@);
    assert(s@.skip(j as int) =~= Seq::<char>::empty());
    while j >= 2
        invariant
            j <= s.len(),
            after_last_arrow(s@) == after_last_arrow(s@.take(j as int)) + s@.skip(j as int),
        decreases j,
    {
        let ghost t = s@.take(j as int);
        if s[j - 2] == '-' && s[j - 1] == '>' {
            assert(after_last_arrow(t) == Seq::<char>::empty());
            assert(Seq::<char>::empty() + s@.skip(j as int) =~= s@.skip(j as int));
            return j;
        }
        assert(t.drop_last() =~= s@.take(j - 1));
        assert(after_last_arrow(s@.take(j - 1)).push(s@[j - 1]) + s@.skip(j as int)
            =~= after_last_arrow(s@.take(j - 1)) + s@.skip(j - 1));
        j = j - 1;
    }
    assert(after_last_arrow(s@.take(j as int)) == s@.take(j as int));
    assert(s@.take(j as int) + s@.skip(j as int) =~= s@);
    0
}

impl Parser {
    spec fn model(&self) -> ParserState {
        ParserState {
            section: opt_section_view(self.section),
            imports: opt_anys_view(self.imports),
            exports: opt_anys_view(self.exports),
            multi: opt_multi_view(self.multi),
            func: opt_func_view(self.func),
            param_name: opt_string_view(self.param_name),
            ret_parsing: self.ret_parsing,
            arrow: self.arrow,
            word: self.word@,
        }
    }

    fn new() -> (res: Self)
        ensures
            res.model() == initial_state(),
    {
        let res = Parser {
            section: None,
            imports: None,
            exports: None,
            multi: None,
            func: None,
            param_name: None,
            ret_parsing: false,
            arrow: false,
            word: Vec::new(),
        };
        assert(res.model().word =~= Seq::<char>::empty());
        res
    }

    fn collect_section(&mut self, section: Section)
        ensures
            final(self).model() == collect(old(self).model(), section.kind, anys_view(section.funcs@)),
    {
        match section.kind {
            TopLevelSection::Exports => {
                self.exports = Some(section.funcs);
            },
            TopLevelSection::Imports => {
                self.imports = Some(section.funcs);
            },
        }
    }

    fn change_section(&mut self, to: TopLevelSection) -> (res: Result<(), ParseError>)
        ensures
            step_result(res, change_section(old(self).model(), to), final(self).model()),
    {
        let section = self.section.take();
        match section {
            Some(section) => {
                if section.kind == to {
                    return Err(ParseError::SectionRepeated);
                }
                self.collect_section(section);
            },
            None => {},
        }
        self.section = Some(Section { kind: to, funcs: Vec::new() });
        assert(anys_view(Seq::<AnyFunc>::empty()) =~= Seq::<AnyFuncModel>::empty());
        Ok(())
    }

    fn start_func(&mut self, name: String) -> (res: Result<(), ParseError>)
        ensures
            step_result(res, start_func(old(self).model(), name@), final(self).model()),
    {
        if self.func.is_some() {
            return Err(ParseError::FuncAlreadyOpen);
        }
        let taken = match &self.section {
            None => {
                return Err(ParseError::NoSection);
            },
            Some(section) => any_named(&section.funcs, &name),
        };
        if taken {
            return Err(ParseError::DuplicateFuncName);
        }
        self.func = Some(Func { name, params: Vec::new(), ret: None, big_call: false });
        assert(params_view(Seq::<Param>::empty()) =~= Seq::<ParamModel>::empty());
        Ok(())
    }

    fn close_params(&mut self) -> (res: Result<(), ParseError>)
        ensures
            step_result(res, close_params(old(self).model()), final(self).model()),
    {
        if self.func.is_none() {
            return Err(ParseError::NoOpenFunc);
        }
        self.ret_parsing = true;
        Ok(())
    }

    fn open_param(&mut self, name: String) -> (res: Result<(), ParseError>)
        ensures
            step_result(res, open_param(old(self).model(), name@), final(self).model()),
    {
        if self.param_name.is_some() {
            return Err(ParseError::ParamNameAlreadyOpen);
        }
        let taken = match &self.func {
            None => {
                return Err(ParseError::NoOpenFunc);
            },
            Some(f) => param_named(&f.params, &name),
        };
        if taken {
            return Err(ParseError::DuplicateParamName);
        }
        self.param_name = Some(name);
        Ok(())
    }

    fn push_param(&mut self, ty: String, c: char, pool: &ValueTypePool) -> (res: Result<(), ParseError>)
        ensures
            step_result(res, push_param(old(self).model(), ty@, c, pool@), final(self).model()),
    {
        if self.func.is_none() || self.param_name.is_none() {
            return Err(ParseError::MissingParamName);
        }
        let name = self.param_name.take().unwrap();
        let t = match pool.from_param_type(ParamType(ty.as_str())) {
            Some(t) => t,
            None => {
                return Err(ParseError::UnknownParamType);
            },
        };
        let multi_open = self.multi.is_some();
        let mut f = self.func.take().unwrap();
        let ghost old_params = f.params@;
        let p = Param { name, param_type: t };
        f.params.push(p);
        proof {
            lemma_params_push(old_params, p);
        }
        let count = f.params.len();
        if count > BIG_CALL_MAX_PARAMS {
            return Err(ParseError::TooManyParams);
        }
        if count >= BIG_CALL_MIN_PARAMS || multi_open {
            f.big_call = true;
        }
        self.func = Some(f);
        if c == ')' {
            self.ret_parsing = true;
        }
        Ok(())
    }

    fn start_multi_func(&mut self, name: String) -> (res: Result<(), ParseError>)
        ensures
            step_result(res, start_multi(old(self).model(), name@), final(self).model()),
    {
        if self.multi.is_some() {
            return Err(ParseError::MultiFuncAlreadyOpen);
        }
        self.multi = Some(MultiFunc { name, funcs: Vec::new() });
        assert(funcs_view(Seq::<Func>::empty()) =~= Seq::<FuncModel>::empty());
        Ok(())
    }

    fn finish_multi_func(&mut self) -> (res: Result<(), ParseError>)
        ensures
            step_result(res, finish_multi(old(self).model()), final(self).model()),
    {
        let m = match self.multi.take() {
            None => {
                return Err(ParseError::NoOpenMultiFunc);
            },
            Some(m) => m,
        };
        let mut section = match self.section.take() {
            None => {
                return Err(ParseError::NoSection);
            },
            Some(s) => s,
        };
        let ghost old_funcs = section.funcs@;
        let a = AnyFunc::MultiFunc(m);
        section.funcs.push(a);
        proof {
            lemma_anys_push(old_funcs, a);
        }
        self.section = Some(section);
        Ok(())
    }

    fn add_func(&mut self, f: Func) -> (res: Result<(), ParseError>)
        ensures
            step_result(res, add_func(old(self).model(), f@), final(self).model()),
    {
        match self.multi.take() {
            Some(mut m) => {
                let ghost old_funcs = m.funcs@;
                m.funcs.push(f);
                proof {
                    lemma_funcs_push(old_funcs, f);
                }
                self.multi = Some(m);
                Ok(())
            },
            None => {
                let mut section = match self.section.take() {
                    None => {
                        return Err(ParseError::NoSection);
                    },
                    Some(s) => s,
                };
                let ghost old_funcs = section.funcs@;
                let a = AnyFunc::Normal(f);
                section.funcs.push(a);
                proof {
                    lemma_anys_push(old_funcs, a);
                }
                self.section = Some(section);
                Ok(())
            },
        }
    }

    /// The trimmed word, as a string; the word is emptied.
    fn take_trimmed_word(&mut self) -> (res: String)
        ensures
            res@ == trim(old(self).model().word),
            final(self).model() == (ParserState { word: Seq::empty(), ..old(self).model() }),
    {
        let (a, b) = trimmed_bounds(&self.word);
        let w = string_of(&self.word, a, b);
        self.word = Vec::new();
        assert(self.word@ =~= Seq::<char>::empty());
        w
    }

    fn delimiter_step(&mut self, c: char, pool: &ValueTypePool) -> (res: Result<(), ParseError>)
        requires
            is_delimiter(c),
        ensures
            step_result(res, delimiter_step(old(self).model(), c, pool@), final(self).model()),
    {
        let w = self.take_trimmed_word();
        let empty = w.as_str().is_empty();
        if c == '{' {
            if str_is(&w, "imports") {
                self.change_section(TopLevelSection::Imports)
            } else if str_is(&w, "exports") {
                self.change_section(TopLevelSection::Exports)
            } else {
                Err(ParseError::UnknownSection)
            }
        } else if c == '(' {
            self.start_func(w)
        } else if c == ')' && empty {
            self.close_params()
        } else if c == ':' {
            self.open_param(w)
        } else if c == ',' || c == ')' {
            self.push_param(w, c, pool)
        } else if c == '[' {
            self.start_multi_func(w)
        } else if c == ']' && empty {
            self.finish_multi_func()
        } else {
            Ok(())
        }
    }

    fn end_of_line(&mut self, pool: &ValueTypePool) -> (res: Result<(), ParseError>)
        ensures
            step_result(res, end_of_line(old(self).model(), pool@), final(self).model()),
    {
        let mut f = match self.func.take() {
            None => {
                return Err(ParseError::NoOpenFunc);
            },
            Some(f) => f,
        };
        self.ret_parsing = false;
        let (a, b) = trimmed_bounds(&self.word);
        let w = sub_chars(&self.word, a, b);
        self.word = Vec::new();
        assert(self.word@ =~= Seq::<char>::empty());
        if w.len() > 0 {
            let k = after_last_arrow_start(&w);
            let rt_chars = sub_chars(&w, k, w.len());
            assert(rt_chars@ =~= w@.skip(k as int));
            let (ra, rb) = trimmed_bounds(&rt_chars);
            let rt = string_of(&rt_chars, ra, rb);
            match pool.from_return_type(ReturnType(rt.as_str())) {
                None => {
                    return Err(ParseError::UnknownReturnType);
                },
                Some(t) => {
                    f.ret = Some(t);
                },
            }
        }
        self.add_func(f)
    }

    fn other_step(&mut self, c: char, pool: &ValueTypePool) -> (res: Result<(), ParseError>)
        requires
            !is_delimiter(c),
        ensures
            step_result(res, other_step(old(self).model(), c, pool@), final(self).model()),
    {
        if self.ret_parsing {
            if c == '-' {
                self.arrow = true;
            } else if c == '>' {
                if !self.arrow {
                    return Err(ParseError::MisplacedArrow);
                }
                self.arrow = false;
            } else if c == '\n' {
                match self.end_of_line(pool) {
                    Ok(()) => {},
                    Err(e) => {
                        return Err(e);
                    },
                }
            } else if self.arrow {
                return Err(ParseError::MisplacedArrow);
            }
        }
        self.word.push(c);
        Ok(())
    }

    fn finish(self) -> (res: Result<Interface, ParseError>)
        ensures
            match res {
                Ok(i) => finish(self.model()) == Ok::<InterfaceModel, ParseError>(i@),
                Err(e) => finish(self.model()) == Err::<InterfaceModel, ParseError>(e),
            },
    {
        let mut p = self;
        let section = p.section.take();
        match section {
            Some(section) => p.collect_section(section),
            None => {},
        }
        let imports = match p.imports {
            None => {
                return Err(ParseError::MissingImports);
            },
            Some(v) => v,
        };
        let exports = match p.exports {
            None => {
                return Err(ParseError::MissingExports);
            },
            Some(v) => v,
        };
        Ok(Interface { imports, exports })
    }
}

proof fn lemma_run_err(input: Seq<char>, k: int, pool: Seq<ValueTypeModel>, e: ParseError)
    requires
        0 <= k <= input.len(),
        run(input.take(k), pool) == Err::<ParserState, ParseError>(e),
    ensures
        run(input, pool) == Err::<ParserState, ParseError>(e),
    decreases input.len() - k,
{
    if k == input.len() {
        assert(input.take(k) =~= input);
    } else {
        assert(input.take(k + 1).drop_last() =~= input.take(k));
        lemma_run_err(input, k + 1, pool, e);
    }
}

/// Parses an interface file over the value types of `pool`, or says why it
/// is refused.
pub fn try_parse(input: &str, pool: &ValueTypePool) -> (res: Result<Interface, ParseError>)
    ensures
        match res {
            Ok(i) => spec_parse(input@, pool@) == Ok::<InterfaceModel, ParseError>(i@)
                && interface_wf(i@),
            Err(e) => spec_parse(input@, pool@) == Err::<InterfaceModel, ParseError>(e),
        },
{
    let chars = chars_of(input);
    let mut p = Parser::new();
    let mut i: usize = 0;
    assert(chars@.take(0) =~= Seq::<char>::empty());
    while i < chars.len()
        invariant
            i <= chars.len(),
            chars@ == input@,
            run(chars@.take(i as int), pool@) == Ok::<ParserState, ParseError>(p.model()),
        decreases chars.len() - i,
    {
        let c = chars[i];
        assert(chars@.take(i + 1).drop_last() =~= chars@.take(i as int));
        assert(chars@.take(i + 1).last() == c);
        let r = if c == ':' || c == '(' || c == ')' || c == ',' || c == '{' || c == '}' || c == '['
            || c == ']' {
            p.delimiter_step(c, pool)
        } else {
            p.other_step(c, pool)
        };
        match r {
            Ok(()) => {},
            Err(e) => {
                proof {
                    lemma_run_err(chars@, i + 1, pool@, e);
                }
                return Err(e);
            },
        }
        i = i + 1;
    }
    assert(chars@.take(i as int) =~= chars@);
    let res = p.finish();
    proof {
        if res is Ok {
            lemma_parsed_functions_well_formed(input@, pool@);
        }
    }
    res
}

/// Parses an interface file that is known to be well formed over the value
/// types of `pool`.
pub fn parse(input: &str, pool: &ValueTypePool) -> (res: Interface)
    requires
        spec_parse(input@, pool@) is Ok,
    ensures
        spec_parse(input@, pool@) == Ok::<InterfaceModel, ParseError>(res@),
        interface_wf(res@),
{
    match try_parse(input, pool) {
        Ok(i) => i,
        Err(_) => {
            proof {
                assert(false);
            }
            Interface { imports: Vec::new(), exports: Vec::new() }
        },
    }
}


/// The parameters have pairwise distinct names.
pub open spec fn distinct_param_names(ps: Seq<ParamModel>) -> bool {
    forall|i: int, j: int| 0 <= i < j < ps.len() ==> (#[trigger] ps[i]).name != (#[trigger] ps[j]).name
}

/// What every function that the parser returns satisfies: at most
/// [`BIG_CALL_MAX_PARAMS`] parameters with distinct names, the big-call
/// buffer for [`BIG_CALL_MIN_PARAMS`] parameters or more, and never for none.
pub open spec fn func_wf(f: FuncModel) -> bool {
    &&& f.params.len() <= BIG_CALL_MAX_PARAMS
    &&& distinct_param_names(f.params)
    &&& f.params.len() >= BIG_CALL_MIN_PARAMS ==> f.big_call
    &&& f.big_call ==> f.params.len() >= 1
}

pub open spec fn funcs_wf(fs: Seq<FuncModel>) -> bool {
    forall|i: int| 0 <= i < fs.len() ==> func_wf(#[trigger] fs[i])
}

pub open spec fn any_wf(a: AnyFuncModel) -> bool {
    match a {
        AnyFuncModel::Normal(f) => func_wf(f),
        AnyFuncModel::Multi(m) => funcs_wf(m.funcs),
    }
}

pub open spec fn entries_wf(s: Seq<AnyFuncModel>) -> bool {
    forall|i: int| 0 <= i < s.len() ==> any_wf(#[trigger] s[i])
}

/// Every function of the interface, in a section or in a multi function,
/// satisfies [`func_wf`].
pub open spec fn interface_wf(i: InterfaceModel) -> bool {
    entries_wf(i.imports) && entries_wf(i.exports)
}

spec fn opt_entries_wf(o: Option<Seq<AnyFuncModel>>) -> bool {
    match o {
        Some(s) => entries_wf(s),
        None => true,
    }
}

spec fn state_wf(st: ParserState) -> bool {
    &&& match st.section {
        Some((_, fs)) => entries_wf(fs),
        None => true,
    }
    &&& opt_entries_wf(st.imports)
    &&& opt_entries_wf(st.exports)
    &&& match st.multi {
        Some(m) => funcs_wf(m.funcs),
        None => true,
    }
    &&& match st.func {
        Some(f) => func_wf(f) && match st.param_name {
            Some(n) => !param_taken(f.params, n),
            None => true,
        },
        None => true,
    }
}

proof fn lemma_add_func_wf(st: ParserState, f: FuncModel)
    requires
        state_wf(st),
        func_wf(f),
        add_func(st, f) is Ok,
    ensures
        state_wf(add_func(st, f)->Ok_0),
{
    match st.multi {
        Some(m) => {
            assert(funcs_wf(m.funcs.push(f)));
        },
        None => {
            let (kind, fs) = st.section->Some_0;
            let fs2 = fs.push(AnyFuncModel::Normal(f));
            assert forall|i: int| 0 <= i < fs2.len() implies any_wf(#[trigger] fs2[i]) by {
                if i < fs.len() {
                    assert(fs2[i] == fs[i]);
                }
            }
        },
    }
}

proof fn lemma_step_wf(st: ParserState, c: char, pool: Seq<ValueTypeModel>)
    requires
        state_wf(st),
        step(st, c, pool) is Ok,
    ensures
        state_wf(step(st, c, pool)->Ok_0),
{
    if is_delimiter(c) {
        let w = trim(st.word);
        let st0 = ParserState { word: Seq::empty(), ..st };
        if c == '{' {
        } else if c == '(' {
            assert(distinct_param_names(Seq::<ParamModel>::empty()));
        } else if c == ')' && w.len() == 0 {
        } else if c == ':' {
        } else if c == ',' || c == ')' {
            let f = st.func->Some_0;
            let n = st.param_name->Some_0;
            let t = find_param_type(pool, w)->Some_0;
            let ps = f.params.push(ParamModel { name: n, param_type: t });
            assert forall|i: int, j: int| 0 <= i < j < ps.len() implies (#[trigger] ps[i]).name
                != (#[trigger] ps[j]).name by {
                if j == ps.len() - 1 {
                    assert(ps[i] == f.params[i]);
                    if ps[i].name == n {
                        assert(param_taken(f.params, n));
                    }
                } else {
                    assert(ps[i] == f.params[i] && ps[j] == f.params[j]);
                }
            }
        } else if c == '[' {
            assert(funcs_wf(Seq::<FuncModel>::empty()));
        } else if c == ']' && w.len() == 0 {
            let m = st.multi->Some_0;
            let (kind, fs) = st.section->Some_0;
            let fs2 = fs.push(AnyFuncModel::Multi(m));
            assert forall|i: int| 0 <= i < fs2.len() implies any_wf(#[trigger] fs2[i]) by {
                if i < fs.len() {
                    assert(fs2[i] == fs[i]);
                }
            }
        } else {
        }
    } else {
        if st.ret_parsing && c == '\n' {
            let f = st.func->Some_0;
            let w = trim(st.word);
            let st2 = ParserState { func: None, word: Seq::empty(), ret_parsing: false, ..st };
            if w.len() == 0 {
                lemma_add_func_wf(st2, f);
            } else {
                let t = find_return_type(pool, trim(after_last_arrow(w)))->Some_0;
                lemma_add_func_wf(st2, FuncModel { ret: Some(t), ..f });
            }
        }
    }
}

proof fn lemma_run_wf(input: Seq<char>, pool: Seq<ValueTypeModel>)
    requires
        run(input, pool) is Ok,
    ensures
        state_wf(run(input, pool)->Ok_0),
    decreases input.len(),
{
    if input.len() == 0 {
    } else {
        lemma_run_wf(input.drop_last(), pool);
        lemma_step_wf(run(input.drop_last(), pool)->Ok_0, input.last(), pool);
    }
}

/// Every function of a parsed interface has at most
/// [`BIG_CALL_MAX_PARAMS`] parameters, with pairwise distinct names; it
/// passes its arguments through the big-call buffer when it has
/// [`BIG_CALL_MIN_PARAMS`] or more, and never when it has none.
pub proof fn lemma_parsed_functions_well_formed(input: Seq<char>, pool: Seq<ValueTypeModel>)
    requires
        spec_parse(input, pool) is Ok,
    ensures
        interface_wf(spec_parse(input, pool)->Ok_0),
{
    lemma_run_wf(input, pool);
}

/// The big-call rule of a function of a section: the buffer exactly from
/// [`BIG_CALL_MIN_PARAMS`] parameters on.
pub open spec fn section_big_call_rule(f: FuncModel) -> bool {
    f.big_call <==> f.params.len() >= BIG_CALL_MIN_PARAMS
}

/// The big-call rule of a member of a multi function: the buffer exactly
/// when it has a parameter.
pub open spec fn member_big_call_rule(f: FuncModel) -> bool {
    f.big_call <==> f.params.len() >= 1
}

/// Every function of `s` follows its big-call rule.
pub open spec fn entries_big_call_rule(s: Seq<AnyFuncModel>) -> bool {
    forall|i: int|
        0 <= i < s.len() ==> match #[trigger] s[i] {
            AnyFuncModel::Normal(f) => section_big_call_rule(f),
            AnyFuncModel::Multi(m) => forall|j: int|
                0 <= j < m.funcs.len() ==> member_big_call_rule(#[trigger] m.funcs[j]),
        }
}

/// No `[` or `]` of `input` comes while a function is being declared: a
/// multi function is opened and closed between function declarations.
pub open spec fn multi_brackets_outside_funcs(input: Seq<char>, pool: Seq<ValueTypeModel>) -> bool {
    forall|k: int|
        0 <= k < input.len() && (input[k] == '[' || input[k] == ']') && #[trigger] run(
            input.take(k),
            pool,
        ) is Ok ==> run(input.take(k), pool)->Ok_0.func is None
}

spec fn opt_entries_big_call_rule(o: Option<Seq<AnyFuncModel>>) -> bool {
    match o {
        Some(s) => entries_big_call_rule(s),
        None => true,
    }
}

spec fn state_big_call_rule(st: ParserState) -> bool {
    &&& match st.section {
        Some((_, fs)) => entries_big_call_rule(fs),
        None => true,
    }
    &&& opt_entries_big_call_rule(st.imports)
    &&& opt_entries_big_call_rule(st.exports)
    &&& match st.multi {
        Some(m) => forall|j: int| 0 <= j < m.funcs.len() ==> member_big_call_rule(#[trigger] m.funcs[j]),
        None => true,
    }
    &&& match st.func {
        Some(f) => if st.multi is Some {
            member_big_call_rule(f)
        } else {
            section_big_call_rule(f)
        },
        None => true,
    }
}

proof fn lemma_push_entry_big_call_rule(fs: Seq<AnyFuncModel>, a: AnyFuncModel)
    requires
        entries_big_call_rule(fs),
        entries_big_call_rule(seq![a]),
    ensures
        entries_big_call_rule(fs.push(a)),
{
    let fs2 = fs.push(a);
    assert forall|i: int| 0 <= i < fs2.len() implies match #[trigger] fs2[i] {
        AnyFuncModel::Normal(f) => section_big_call_rule(f),
        AnyFuncModel::Multi(m) => forall|j: int|
            0 <= j < m.funcs.len() ==> member_big_call_rule(#[trigger] m.funcs[j]),
    } by {
        if i < fs.len() {
            assert(fs2[i] == fs[i]);
        } else {
            assert(fs2[i] == seq![a][0]);
        }
    }
}

proof fn lemma_add_func_big_call_rule(st: ParserState, f: FuncModel)
    requires
        state_big_call_rule(st),
        st.func is None,
        st.multi is Some ==> member_big_call_rule(f),
        st.multi is None ==> section_big_call_rule(f),
        add_func(st, f) is Ok,
    ensures
        state_big_call_rule(add_func(st, f)->Ok_0),
{
    match st.multi {
        Some(m) => {
            let fs = m.funcs.push(f);
            assert forall|j: int| 0 <= j < fs.len() implies member_big_call_rule(#[trigger] fs[j]) by {
                if j < m.funcs.len() {
                    assert(fs[j] == m.funcs[j]);
                }
            }
        },
        None => {
            let (kind, fs) = st.section->Some_0;
            lemma_push_entry_big_call_rule(fs, AnyFuncModel::Normal(f));
        },
    }
}

proof fn lemma_step_big_call_rule(st: ParserState, c: char, pool: Seq<ValueTypeModel>)
    requires
        state_big_call_rule(st),
        step(st, c, pool) is Ok,
        c == '[' || c == ']' ==> st.func is None,
    ensures
        state_big_call_rule(step(st, c, pool)->Ok_0),
{
    if is_delimiter(c) {
        let w = trim(st.word);
        if c == '{' {
        } else if c == '(' {
        } else if c == ')' && w.len() == 0 {
        } else if c == ':' {
        } else if c == ',' || c == ')' {
        } else if c == '[' {
            assert(forall|j: int| 0 <= j < Seq::<FuncModel>::empty().len() ==> member_big_call_rule(
                #[trigger] Seq::<FuncModel>::empty()[j],
            ));
        } else if c == ']' && w.len() == 0 {
            let m = st.multi->Some_0;
            let (kind, fs) = st.section->Some_0;
            assert(entries_big_call_rule(seq![AnyFuncModel::Multi(m)])) by {
                assert(seq![AnyFuncModel::Multi(m)][0] == AnyFuncModel::Multi(m));
            }
            lemma_push_entry_big_call_rule(fs, AnyFuncModel::Multi(m));
        } else {
        }
    } else {
        if st.ret_parsing && c == '\n' {
            let f = st.func->Some_0;
            let w = trim(st.word);
            let st2 = ParserState { func: None, word: Seq::empty(), ret_parsing: false, ..st };
            if w.len() == 0 {
                if st.multi is None {
                    let (kind, fs) = st.section->Some_0;
                    assert(entries_big_call_rule(seq![AnyFuncModel::Normal(f)])) by {
                        assert(seq![AnyFuncModel::Normal(f)][0] == AnyFuncModel::Normal(f));
                    }
                }
                lemma_add_func_big_call_rule(st2, f);
            } else {
                let t = find_return_type(pool, trim(after_last_arrow(w)))->Some_0;
                let f2 = FuncModel { ret: Some(t), ..f };
                if st.multi is None {
                    assert(entries_big_call_rule(seq![AnyFuncModel::Normal(f2)])) by {
                        assert(seq![AnyFuncModel::Normal(f2)][0] == AnyFuncModel::Normal(f2));
                    }
                }
                lemma_add_func_big_call_rule(st2, f2);
            }
        }
    }
}

proof fn lemma_run_big_call_rule(input: Seq<char>, pool: Seq<ValueTypeModel>)
    requires
        run(input, pool) is Ok,
        multi_brackets_outside_funcs(input, pool),
    ensures
        state_big_call_rule(run(input, pool)->Ok_0),
    decreases input.len(),
{
    if input.len() > 0 {
        let init = input.drop_last();
        assert forall|k: int|
            0 <= k < init.len() && (init[k] == '[' || init[k] == ']') && #[trigger] run(
                init.take(k),
                pool,
            ) is Ok implies run(init.take(k), pool)->Ok_0.func is None by {
            assert(init.take(k) =~= input.take(k));
            assert(init[k] == input[k]);
        }
        lemma_run_big_call_rule(init, pool);
        let k = input.len() - 1;
        assert(input.take(k) =~= init);
        assert(input[k] == input.last());
        assert(run(input.take(k), pool) is Ok);
        lemma_step_big_call_rule(run(init, pool)->Ok_0, input.last(), pool);
    }
}

/// When multi functions are opened and closed between function
/// declarations, every function of a parsed section passes its arguments
/// through the big-call buffer exactly when it has
/// [`BIG_CALL_MIN_PARAMS`] parameters or more, and every member of a multi
/// function exactly when it has a parameter.
pub proof fn lemma_parsed_big_call_rule(input: Seq<char>, pool: Seq<ValueTypeModel>)
    requires
        spec_parse(input, pool) is Ok,
        multi_brackets_outside_funcs(input, pool),
    ensures
        entries_big_call_rule(spec_parse(input, pool)->Ok_0.imports),
        entries_big_call_rule(spec_parse(input, pool)->Ok_0.exports),
{
    lemma_run_big_call_rule(input, pool);
}

/// A parameter is refused as one too many exactly when the function
/// already has 32: ending a parameter of a known type and a fresh name
/// (with `,`, or with `)` after the type) of a function with fewer than 32
/// parameters adds it, and `TooManyParams` comes only on a function that
/// has 32 already.
pub proof fn lemma_param_count_limit(st: ParserState, c: char, pool: Seq<ValueTypeModel>)
    ensures
        step(st, c, pool) == Err::<ParserState, ParseError>(ParseError::TooManyParams) ==> st.func is Some
            && st.func->Some_0.params.len() >= 32,
        ({
            &&& c == ',' || (c == ')' && trim(st.word).len() > 0)
            &&& st.func is Some
            &&& st.param_name is Some
            &&& find_param_type(pool, trim(st.word)) is Some
            &&& st.func->Some_0.params.len() < 32
        }) ==> step(st, c, pool) is Ok && step(st, c, pool)->Ok_0.func is Some && step(
            st,
            c,
            pool,
        )->Ok_0.func->Some_0.params.len() == st.func->Some_0.params.len() + 1,
{
}

proof fn lemma_run_error_step(input: Seq<char>, pool: Seq<ValueTypeModel>, e: ParseError)
    requires
        run(input, pool) == Err::<ParserState, ParseError>(e),
    ensures
        exists|k: int|
            0 <= k < input.len() && #[trigger] run(input.take(k), pool) is Ok && step(
                run(input.take(k), pool)->Ok_0,
                input[k],
                pool,
            ) == Err::<ParserState, ParseError>(e),
    decreases input.len(),
{
    let init = input.drop_last();
    let k0 = input.len() - 1;
    assert(input.take(k0) =~= init);
    match run(init, pool) {
        Ok(st) => {
            assert(input[k0] == input.last());
            assert(run(input.take(k0), pool) is Ok);
        },
        Err(e2) => {
            lemma_run_error_step(init, pool, e);
            let k = choose|k: int|
                0 <= k < init.len() && #[trigger] run(init.take(k), pool) is Ok && step(
                    run(init.take(k), pool)->Ok_0,
                    init[k],
                    pool,
                ) == Err::<ParserState, ParseError>(e);
            assert(init.take(k) =~= input.take(k));
            assert(init[k] == input[k]);
            assert(run(input.take(k), pool) is Ok);
        },
    }
}

/// An interface file is refused with `TooManyParams` only when it adds a
/// parameter, with `,` or `)`, to a function that has 32 parameters
/// already: a file whose functions have at most 32 parameters is never
/// refused for their number.
pub proof fn lemma_too_many_params_only_past_32(input: Seq<char>, pool: Seq<ValueTypeModel>)
    requires
        spec_parse(input, pool) == Err::<InterfaceModel, ParseError>(ParseError::TooManyParams),
    ensures
        exists|k: int|
            0 <= k < input.len() && (input[k] == ',' || input[k] == ')') && #[trigger] run(
                input.take(k),
                pool,
            ) is Ok && run(input.take(k), pool)->Ok_0.func is Some && run(
                input.take(k),
                pool,
            )->Ok_0.func->Some_0.params.len() == 32,
{
    match run(input, pool) {
        Ok(st) => {
            assert(finish(st) != Err::<InterfaceModel, ParseError>(ParseError::TooManyParams));
        },
        Err(e) => {
            lemma_run_error_step(input, pool, e);
            let k = choose|k: int|
                0 <= k < input.len() && #[trigger] run(input.take(k), pool) is Ok && step(
                    run(input.take(k), pool)->Ok_0,
                    input[k],
                    pool,
                ) == Err::<ParserState, ParseError>(e);
            let st = run(input.take(k), pool)->Ok_0;
            lemma_param_count_limit(st, input[k], pool);
            lemma_run_wf(input.take(k), pool);
            assert(input[k] == ',' || input[k] == ')');
        },
    }
}

} // verus!
