//! What each function of an interface becomes on each side of the
//! boundary: the Rust signature of its wrapper or trait method, how every
//! argument and the result are converted, and how each argument travels
//! (as a wasm argument of its own, or in a slot of the big-call buffer).
use vstd::prelude::*;
use crate::num_bytes::BYTES_TO_STORE_U64_32_TIMES;
use crate::parser::{Func, FuncModel, Param, ParamModel, func_wf, params_view, BIG_CALL_MAX_PARAMS};
use crate::plan::{
    big_call_slot, conversions_match, decoding, encoding, exported_symbol, guest_import_binding,
    host_call_method, host_export_field, rust_type, slot_start, spec_decoding, spec_encoding,
    spec_rust_type, Decoding, Encoding, ImportPlan, ImportPlanModel, Side,
};
use crate::value_type::{ValueRepr, ValueType, ValueTypeModel};

verus! {

/// How an argument reaches the callee.
#[derive(Debug, PartialEq, Eq, Clone, Copy, Structural)]
pub enum Passing {
    /// As a wasm argument of its own.
    Positional,
    /// In the bytes `start..end` of the big-call buffer.
    Slot { start: usize, end: usize },
}

/// One argument as one side sees it: its name, its Rust type, its wasm
/// representation, its conversion (an [`Encoding`] on the sending side, a
/// [`Decoding`] on the receiving side) and how it travels.
#[derive(Debug, PartialEq)]
pub struct ParamBinding<C> {
    pub name: String,
    pub rust_type: String,
    pub repr: ValueRepr,
    pub conversion: C,
    pub passing: Passing,
}

pub struct ParamBindingModel<C> {
    pub name: Seq<char>,
    pub rust_type: Seq<char>,
    pub repr: ValueRepr,
    pub conversion: C,
    pub passing: Passing,
}

impl<C> View for ParamBinding<C> {
    type V = ParamBindingModel<C>;

    open spec fn view(&self) -> ParamBindingModel<C> {
        ParamBindingModel {
            name: self.name@,
            rust_type: self.rust_type@,
            repr: self.repr,
            conversion: self.conversion,
            passing: self.passing,
        }
    }
}

/// A result as one side sees it: its Rust type, its wasm representation
/// and its conversion.
#[derive(Debug, PartialEq)]
pub struct ResultBinding<C> {
    pub rust_type: String,
    pub repr: ValueRepr,
    pub conversion: C,
}

pub struct ResultBindingModel<C> {
    pub rust_type: Seq<char>,
    pub repr: ValueRepr,
    pub conversion: C,
}

impl<C> View for ResultBinding<C> {
    type V = ResultBindingModel<C>;

    open spec fn view(&self) -> ResultBindingModel<C> {
        ResultBindingModel { rust_type: self.rust_type@, repr: self.repr, conversion: self.conversion }
    }
}

pub open spec fn param_bindings_view<C>(v: Seq<ParamBinding<C>>) -> Seq<ParamBindingModel<C>> {
    v.map_values(|b: ParamBinding<C>| b@)
}

pub open spec fn opt_result_view<C>(o: Option<ResultBinding<C>>) -> Option<ResultBindingModel<C>> {
    match o {
        Some(r) => Some(r@),
        None => None,
    }
}

/// How argument `j` travels: in its slot of the big-call buffer for a big
/// call, else as a wasm argument of its own.
pub open spec fn spec_passing(big_call: bool, j: int) -> Passing {
    if big_call {
        Passing::Slot { start: slot_start(j) as usize, end: slot_start(j + 1) as usize }
    } else {
        Passing::Positional
    }
}

/// Argument `j` on the side that sends it: declared Rust type, encoded.
pub open spec fn sending_param(p: ParamModel, j: int, big_call: bool) -> ParamBindingModel<Encoding> {
    ParamBindingModel {
        name: p.name,
        rust_type: spec_rust_type(p.param_type, false),
        repr: p.param_type.repr,
        conversion: spec_encoding(p.param_type.kind, false),
        passing: spec_passing(big_call, j),
    }
}

/// Argument `j` on `side`, which receives it: deserialized Rust type,
/// decoded.
pub open spec fn receiving_param(p: ParamModel, j: int, big_call: bool, side: Side) -> ParamBindingModel<Decoding> {
    ParamBindingModel {
        name: p.name,
        rust_type: spec_rust_type(p.param_type, true),
        repr: p.param_type.repr,
        conversion: spec_decoding(p.param_type.kind, side, false),
        passing: spec_passing(big_call, j),
    }
}

pub open spec fn sending_params(ps: Seq<ParamModel>, big_call: bool) -> Seq<ParamBindingModel<Encoding>> {
    Seq::new(ps.len(), |j: int| sending_param(ps[j], j, big_call))
}

pub open spec fn receiving_params(ps: Seq<ParamModel>, big_call: bool, side: Side) -> Seq<ParamBindingModel<Decoding>> {
    Seq::new(ps.len(), |j: int| receiving_param(ps[j], j, big_call, side))
}

/// A result on the side that sends it back.
pub open spec fn sending_result(t: ValueTypeModel) -> ResultBindingModel<Encoding> {
    ResultBindingModel {
        rust_type: spec_rust_type(t, false),
        repr: t.repr,
        conversion: spec_encoding(t.kind, true),
    }
}

/// A result on `side`, which receives it.
pub open spec fn receiving_result(t: ValueTypeModel, side: Side) -> ResultBindingModel<Decoding> {
    ResultBindingModel {
        rust_type: spec_rust_type(t, true),
        repr: t.repr,
        conversion: spec_decoding(t.kind, side, true),
    }
}

pub open spec fn opt_sending_result(o: Option<ValueTypeModel>) -> Option<ResultBindingModel<Encoding>> {
    match o {
        Some(t) => Some(sending_result(t)),
        None => None,
    }
}

pub open spec fn opt_receiving_result(o: Option<ValueTypeModel>, side: Side) -> Option<ResultBindingModel<Decoding>> {
    match o {
        Some(t) => Some(receiving_result(t, side)),
        None => None,
    }
}

fn sending_param_binding(p: &Param, j: usize, big_call: bool) -> (res: ParamBinding<Encoding>)
    requires
        big_call ==> j < BIG_CALL_MAX_PARAMS,
    ensures
        res@ == sending_param(p@, j as int, big_call),
{
    let passing = if big_call {
        let (start, end) = big_call_slot(j);
        Passing::Slot { start, end }
    } else {
        Passing::Positional
    };
    ParamBinding {
        name: p.name.clone(),
        rust_type: rust_type(&p.param_type, false),
        repr: p.param_type.repr,
        conversion: encoding(p.param_type.kind, false),
        passing,
    }
}

fn receiving_param_binding(p: &Param, j: usize, big_call: bool, side: Side) -> (res: ParamBinding<Decoding>)
    requires
        big_call ==> j < BIG_CALL_MAX_PARAMS,
    ensures
        res@ == receiving_param(p@, j as int, big_call, side),
{
    let passing = if big_call {
        let (start, end) = big_call_slot(j);
        Passing::Slot { start, end }
    } else {
        Passing::Positional
    };
    ParamBinding {
        name: p.name.clone(),
        rust_type: rust_type(&p.param_type, true),
        repr: p.param_type.repr,
        conversion: decoding(p.param_type.kind, side, false),
        passing,
    }
}

/// The bindings of `params` on the side that sends them.
fn sending_param_bindings(params: &Vec<Param>, big_call: bool) -> (res: Vec<ParamBinding<Encoding>>)
    requires
        big_call ==> params.len() <= BIG_CALL_MAX_PARAMS,
    ensures
        param_bindings_view(res@) == sending_params(params_view(params@), big_call),
{
    let ghost ps = params_view(params@);
    let mut out: Vec<ParamBinding<Encoding>> = Vec::new();
    let mut j: usize = 0;
    while j < params.len()
        invariant
            j <= params.len(),
            big_call ==> params.len() <= BIG_CALL_MAX_PARAMS,
            ps == params_view(params@),
            param_bindings_view(out@) == sending_params(ps, big_call).take(j as int),
        decreases params.len() - j,
    {
        let b = sending_param_binding(&params[j], j, big_call);
        proof {
            assert(param_bindings_view(out@.push(b)) =~= param_bindings_view(out@).push(b@));
            assert(sending_params(ps, big_call).take(j + 1) =~= sending_params(ps, big_call).take(
                j as int,
            ).push(b@));
        }
        out.push(b);
        j = j + 1;
    }
    assert(sending_params(ps, big_call).take(j as int) =~= sending_params(ps, big_call));
    out
}

/// The bindings of `params` on `side`, which receives them.
fn receiving_param_bindings(params: &Vec<Param>, big_call: bool, side: Side) -> (res: Vec<ParamBinding<Decoding>>)
    requires
        big_call ==> params.len() <= BIG_CALL_MAX_PARAMS,
    ensures
        param_bindings_view(res@) == receiving_params(params_view(params@), big_call, side),
{
    let ghost ps = params_view(params@);
    let mut out: Vec<ParamBinding<Decoding>> = Vec::new();
    let mut j: usize = 0;
    while j < params.len()
        invariant
            j <= params.len(),
            big_call ==> params.len() <= BIG_CALL_MAX_PARAMS,
            ps == params_view(params@),
            param_bindings_view(out@) == receiving_params(ps, big_call, side).take(j as int),
        decreases params.len() - j,
    {
        let b = receiving_param_binding(&params[j], j, big_call, side);
        proof {
            assert(param_bindings_view(out@.push(b)) =~= param_bindings_view(out@).push(b@));
            assert(receiving_params(ps, big_call, side).take(j + 1) =~= receiving_params(
                ps,
                big_call,
                side,
            ).take(j as int).push(b@));
        }
        out.push(b);
        j = j + 1;
    }
    assert(receiving_params(ps, big_call, side).take(j as int) =~= receiving_params(ps, big_call, side));
    out
}

fn sending_result_binding(ret: &Option<ValueType>) -> (res: Option<ResultBinding<Encoding>>)
    ensures
        opt_result_view(res) == opt_sending_result(crate::value_type::opt_type_view(*ret)),
{
    match ret {
        Some(t) => Some(
            ResultBinding { rust_type: rust_type(t, false), repr: t.repr, conversion: encoding(t.kind, true) },
        ),
        None => None,
    }
}

fn receiving_result_binding(ret: &Option<ValueType>, side: Side) -> (res: Option<ResultBinding<Decoding>>)
    ensures
        opt_result_view(res) == opt_receiving_result(crate::value_type::opt_type_view(*ret), side),
{
    match ret {
        Some(t) => Some(
            ResultBinding {
                rust_type: rust_type(t, true),
                repr: t.repr,
                conversion: decoding(t.kind, side, true),
            },
        ),
        None => None,
    }
}

// ------------------------------------------------------------ imports

/// How a result travels through a raw import.
#[derive(Debug, PartialEq, Eq, Clone, Copy, Structural)]
pub enum ResultTransport {
    /// In its own wasm representation.
    Repr,
    /// Widened to a `u64`: the import of a multi function returns a `u64`
    /// whatever member is called, and the guest narrows it back to the
    /// member's representation.
    U64,
}

/// How the result of an import call travels: widened to `u64` for a member
/// of a multi function.
pub open spec fn spec_result_transport(multi_index: Option<int>) -> ResultTransport {
    if multi_index is Some {
        ResultTransport::U64
    } else {
        ResultTransport::Repr
    }
}

/// What an imported function becomes in the guest: a wrapper that encodes
/// its arguments and calls the raw import `raw_fn`, linked as `link_name`
/// in the `__custom_imports` module.
#[derive(Debug, PartialEq)]
pub struct GuestImportBinding {
    /// The wrapper's name.
    pub wrapper: String,
    /// The name the raw import is linked under.
    pub link_name: String,
    /// The raw import's name in the guest.
    pub raw_fn: String,
    /// For a member of a multi function, the index passed to the raw
    /// import in place of the arguments.
    pub multi_index: Option<usize>,
    pub big_call: bool,
    pub params: Vec<ParamBinding<Encoding>>,
    /// How the raw import returns the result.
    pub ret_transport: ResultTransport,
    pub ret: Option<ResultBinding<Decoding>>,
}

pub struct GuestImportBindingModel {
    pub wrapper: Seq<char>,
    pub link_name: Seq<char>,
    pub raw_fn: Seq<char>,
    pub multi_index: Option<int>,
    pub big_call: bool,
    pub params: Seq<ParamBindingModel<Encoding>>,
    pub ret_transport: ResultTransport,
    pub ret: Option<ResultBindingModel<Decoding>>,
}

impl View for GuestImportBinding {
    type V = GuestImportBindingModel;

    open spec fn view(&self) -> GuestImportBindingModel {
        GuestImportBindingModel {
            wrapper: self.wrapper@,
            link_name: self.link_name@,
            raw_fn: self.raw_fn@,
            multi_index: match self.multi_index {
                Some(i) => Some(i as int),
                None => None,
            },
            big_call: self.big_call,
            params: param_bindings_view(self.params@),
            ret_transport: self.ret_transport,
            ret: opt_result_view(self.ret),
        }
    }
}

/// The guest binding of one import call.
pub open spec fn spec_guest_import_binding(p: ImportPlanModel) -> GuestImportBindingModel {
    GuestImportBindingModel {
        wrapper: p.api_name,
        link_name: p.symbol,
        raw_fn: "__custom_imports_"@ + p.symbol,
        multi_index: p.multi_index,
        big_call: p.func.big_call,
        params: sending_params(p.func.params, p.func.big_call),
        ret_transport: spec_result_transport(p.multi_index),
        ret: opt_receiving_result(p.func.ret, Side::Guest),
    }
}

/// What the host answers for an import when the call returns.
#[derive(Debug, PartialEq)]
pub enum HostResult {
    /// Nothing: the function has no result.
    Unit,
    /// `0`: a member of a multi function without a result (the multi
    /// function's import always returns a number).
    Zero,
    /// The encoded result.
    Value(ResultBinding<Encoding>),
    /// The encoded result of a member of a multi function, widened to the
    /// `u64` that the multi function's import returns.
    Widened(ResultBinding<Encoding>),
}

pub enum HostResultModel {
    Unit,
    Zero,
    Value(ResultBindingModel<Encoding>),
    Widened(ResultBindingModel<Encoding>),
}

impl View for HostResult {
    type V = HostResultModel;

    open spec fn view(&self) -> HostResultModel {
        match self {
            HostResult::Unit => HostResultModel::Unit,
            HostResult::Zero => HostResultModel::Zero,
            HostResult::Value(r) => HostResultModel::Value(r@),
            HostResult::Widened(r) => HostResultModel::Widened(r@),
        }
    }
}

/// What an imported function becomes in the host: a method of the imports
/// trait, and a linker registration under `symbol` that decodes the
/// arguments, calls the method and encodes its result.
#[derive(Debug, PartialEq)]
pub struct HostImportBinding {
    /// The trait method.
    pub method: String,
    /// The name the registration is linked under.
    pub symbol: String,
    /// For a member of a multi function, the index that selects it.
    pub dispatch: Option<usize>,
    pub big_call: bool,
    pub params: Vec<ParamBinding<Decoding>>,
    pub ret: HostResult,
}

pub struct HostImportBindingModel {
    pub method: Seq<char>,
    pub symbol: Seq<char>,
    pub dispatch: Option<int>,
    pub big_call: bool,
    pub params: Seq<ParamBindingModel<Decoding>>,
    pub ret: HostResultModel,
}

impl View for HostImportBinding {
    type V = HostImportBindingModel;

    open spec fn view(&self) -> HostImportBindingModel {
        HostImportBindingModel {
            method: self.method@,
            symbol: self.symbol@,
            dispatch: match self.dispatch {
                Some(i) => Some(i as int),
                None => None,
            },
            big_call: self.big_call,
            params: param_bindings_view(self.params@),
            ret: self.ret@,
        }
    }
}

/// The host binding of one import call.
pub open spec fn spec_host_import_binding(p: ImportPlanModel) -> HostImportBindingModel {
    HostImportBindingModel {
        method: p.api_name,
        symbol: p.symbol,
        dispatch: p.multi_index,
        big_call: p.func.big_call,
        params: receiving_params(p.func.params, p.func.big_call, Side::Host),
        ret: match p.func.ret {
            Some(t) => if p.multi_index is Some {
                HostResultModel::Widened(sending_result(t))
            } else {
                HostResultModel::Value(sending_result(t))
            },
            None => if p.multi_index is Some {
                HostResultModel::Zero
            } else {
                HostResultModel::Unit
            },
        },
    }
}

/// The guest's wrapper of an import call.
pub fn guest_import_binding_plan(plan: &ImportPlan) -> (res: GuestImportBinding)
    requires
        plan.func.big_call ==> plan.func.params.len() <= BIG_CALL_MAX_PARAMS,
    ensures
        res@ == spec_guest_import_binding(plan@),
{
    GuestImportBinding {
        wrapper: plan.api_name.clone(),
        link_name: plan.symbol.clone(),
        raw_fn: guest_import_binding(plan.symbol.as_str()),
        multi_index: plan.multi_index,
        big_call: plan.func.big_call,
        params: sending_param_bindings(&plan.func.params, plan.func.big_call),
        ret_transport: if plan.multi_index.is_some() {
            ResultTransport::U64
        } else {
            ResultTransport::Repr
        },
        ret: receiving_result_binding(&plan.func.ret, Side::Guest),
    }
}

/// The host's trait method and linker registration of an import call.
pub fn host_import_binding_plan(plan: &ImportPlan) -> (res: HostImportBinding)
    requires
        plan.func.big_call ==> plan.func.params.len() <= BIG_CALL_MAX_PARAMS,
    ensures
        res@ == spec_host_import_binding(plan@),
{
    let ret = match sending_result_binding(&plan.func.ret) {
        Some(r) => if plan.multi_index.is_some() {
            HostResult::Widened(r)
        } else {
            HostResult::Value(r)
        },
        None => if plan.multi_index.is_some() {
            HostResult::Zero
        } else {
            HostResult::Unit
        },
    };
    HostImportBinding {
        method: plan.api_name.clone(),
        symbol: plan.symbol.clone(),
        dispatch: plan.multi_index,
        big_call: plan.func.big_call,
        params: receiving_param_bindings(&plan.func.params, plan.func.big_call, Side::Host),
        ret,
    }
}

/// For a well-formed import call, the guest and the host agree on it: the
/// host registers the name the guest links, selects the member by the
/// index the guest passes, both set up the big-call buffer exactly when the
/// function is a big call, which is exactly when some argument travels in a
/// slot of it, and, argument by argument, reads it where the
/// guest put it (in the same slot, or at the same position), in the same
/// wasm representation, decoding what the guest encoded; and the guest
/// decodes what the host encodes as the result, which travels in its own
/// representation, or, for a member of a multi function, widened by the
/// host to `u64` and narrowed back by the guest.
pub proof fn lemma_guest_host_agree(p: ImportPlanModel)
    requires
        func_wf(p.func),
    ensures
        ({
            let g = spec_guest_import_binding(p);
            let h = spec_host_import_binding(p);
            &&& g.link_name == h.symbol
            &&& g.multi_index == h.dispatch
            &&& g.big_call == h.big_call
            &&& g.big_call == p.func.big_call
            &&& (g.big_call <==> exists|j: int|
                0 <= j < g.params.len() && (#[trigger] g.params[j]).passing is Slot)
            &&& g.params.len() == p.func.params.len()
            &&& h.params.len() == p.func.params.len()
            &&& forall|j: int|
                0 <= j < p.func.params.len() ==> {
                    &&& #[trigger] g.params[j].name == h.params[j].name
                    &&& g.params[j].repr == h.params[j].repr
                    &&& g.params[j].passing == h.params[j].passing
                    &&& conversions_match(g.params[j].conversion, h.params[j].conversion)
                    &&& (p.func.big_call ==> g.params[j].passing == Passing::Slot {
                        start: (8 * j) as usize,
                        end: (8 * j + 8) as usize,
                    } && 8 * j + 8 <= BYTES_TO_STORE_U64_32_TIMES)
                    &&& (!p.func.big_call ==> g.params[j].passing == Passing::Positional)
                }
            &&& match (g.ret, h.ret) {
                (Some(gr), HostResultModel::Value(hr)) => {
                    &&& p.multi_index is None
                    &&& g.ret_transport == ResultTransport::Repr
                    &&& gr.repr == hr.repr
                    &&& conversions_match(hr.conversion, gr.conversion)
                },
                (Some(gr), HostResultModel::Widened(hr)) => {
                    &&& p.multi_index is Some
                    &&& g.ret_transport == ResultTransport::U64
                    &&& gr.repr == hr.repr
                    &&& conversions_match(hr.conversion, gr.conversion)
                },
                (None, HostResultModel::Unit) => p.multi_index is None,
                (None, HostResultModel::Zero) => p.multi_index is Some,
                _ => false,
            }
        }),
{
    let g = spec_guest_import_binding(p);
    let h = spec_host_import_binding(p);
    if p.func.big_call {
        assert(g.params[0].passing is Slot);
    }
    assert forall|j: int| 0 <= j < p.func.params.len() implies {
        &&& #[trigger] g.params[j].name == h.params[j].name
        &&& g.params[j].repr == h.params[j].repr
        &&& g.params[j].passing == h.params[j].passing
        &&& conversions_match(g.params[j].conversion, h.params[j].conversion)
        &&& (p.func.big_call ==> g.params[j].passing == Passing::Slot {
            start: (8 * j) as usize,
            end: (8 * j + 8) as usize,
        } && 8 * j + 8 <= BYTES_TO_STORE_U64_32_TIMES)
        &&& (!p.func.big_call ==> g.params[j].passing == Passing::Positional)
    } by {
        crate::plan::lemma_boundary_conversions(p.func.params[j].param_type.kind, Side::Guest, false);
    }
    match p.func.ret {
        Some(t) => {
            crate::plan::lemma_boundary_conversions(t.kind, Side::Host, true);
        },
        None => {},
    }
}

// ------------------------------------------------------------ exports

/// What an exported function becomes in the guest: a method of the
/// exports trait, and an extern function exported as `symbol` that
/// decodes the arguments, calls the method and encodes its result.
#[derive(Debug, PartialEq)]
pub struct GuestExportBinding {
    /// The trait method.
    pub method: String,
    /// The exported extern function.
    pub symbol: String,
    pub params: Vec<ParamBinding<Decoding>>,
    pub ret: Option<ResultBinding<Encoding>>,
}

pub struct GuestExportBindingModel {
    pub method: Seq<char>,
    pub symbol: Seq<char>,
    pub params: Seq<ParamBindingModel<Decoding>>,
    pub ret: Option<ResultBindingModel<Encoding>>,
}

impl View for GuestExportBinding {
    type V = GuestExportBindingModel;

    open spec fn view(&self) -> GuestExportBindingModel {
        GuestExportBindingModel {
            method: self.method@,
            symbol: self.symbol@,
            params: param_bindings_view(self.params@),
            ret: opt_result_view(self.ret),
        }
    }
}

/// The guest binding of an exported function: its arguments always
/// travel as wasm arguments of their own.
pub open spec fn spec_guest_export_binding(f: FuncModel) -> GuestExportBindingModel {
    GuestExportBindingModel {
        method: f.name,
        symbol: "__custom_exports_"@ + f.name,
        params: receiving_params(f.params, false, Side::Guest),
        ret: opt_sending_result(f.ret),
    }
}

/// What an exported function becomes in the host: a `call_` method that
/// encodes the arguments and calls the export held in field `field`,
/// looked up under `symbol`.
#[derive(Debug, PartialEq)]
pub struct HostExportBinding {
    /// The public method that makes the call.
    pub method: String,
    /// The field that holds the typed export.
    pub field: String,
    /// The guest export it is looked up under.
    pub symbol: String,
    pub params: Vec<ParamBinding<Encoding>>,
    pub ret: Option<ResultBinding<Decoding>>,
}

pub struct HostExportBindingModel {
    pub method: Seq<char>,
    pub field: Seq<char>,
    pub symbol: Seq<char>,
    pub params: Seq<ParamBindingModel<Encoding>>,
    pub ret: Option<ResultBindingModel<Decoding>>,
}

impl View for HostExportBinding {
    type V = HostExportBindingModel;

    open spec fn view(&self) -> HostExportBindingModel {
        HostExportBindingModel {
            method: self.method@,
            field: self.field@,
            symbol: self.symbol@,
            params: param_bindings_view(self.params@),
            ret: opt_result_view(self.ret),
        }
    }
}

/// The host binding of an exported function.
pub open spec fn spec_host_export_binding(f: FuncModel) -> HostExportBindingModel {
    HostExportBindingModel {
        method: "call_"@ + f.name,
        field: "prop_"@ + f.name,
        symbol: "__custom_exports_"@ + f.name,
        params: sending_params(f.params, false),
        ret: opt_receiving_result(f.ret, Side::Host),
    }
}

/// The guest's trait method and extern function of an export.
pub fn guest_export_binding_plan(f: &Func) -> (res: GuestExportBinding)
    ensures
        res@ == spec_guest_export_binding(f@),
{
    GuestExportBinding {
        method: f.name.clone(),
        symbol: exported_symbol(f.name.as_str()),
        params: receiving_param_bindings(&f.params, false, Side::Guest),
        ret: sending_result_binding(&f.ret),
    }
}

/// The host's call method and field of an export.
pub fn host_export_binding_plan(f: &Func) -> (res: HostExportBinding)
    ensures
        res@ == spec_host_export_binding(f@),
{
    HostExportBinding {
        method: host_call_method(f.name.as_str()),
        field: host_export_field(f.name.as_str()),
        symbol: exported_symbol(f.name.as_str()),
        params: sending_param_bindings(&f.params, false),
        ret: receiving_result_binding(&f.ret, Side::Host),
    }
}

/// For every exported function, the host looks up the symbol the guest
/// exports, passes each argument at its position in the wasm
/// representation the guest expects, encoded as the guest decodes it, and
/// decodes the result as the guest encodes it.
pub proof fn lemma_exports_agree(f: FuncModel)
    ensures
        ({
            let g = spec_guest_export_binding(f);
            let h = spec_host_export_binding(f);
            &&& g.symbol == h.symbol
            &&& g.params.len() == f.params.len()
            &&& h.params.len() == f.params.len()
            &&& forall|j: int|
                0 <= j < f.params.len() ==> {
                    &&& #[trigger] g.params[j].name == h.params[j].name
                    &&& g.params[j].repr == h.params[j].repr
                    &&& g.params[j].passing == Passing::Positional
                    &&& h.params[j].passing == Passing::Positional
                    &&& conversions_match(h.params[j].conversion, g.params[j].conversion)
                }
            &&& match (g.ret, h.ret) {
                (Some(gr), Some(hr)) => gr.repr == hr.repr && conversions_match(gr.conversion, hr.conversion),
                (None, None) => true,
                _ => false,
            }
        }),
{
    let g = spec_guest_export_binding(f);
    let h = spec_host_export_binding(f);
    assert forall|j: int| 0 <= j < f.params.len() implies {
        &&& #[trigger] g.params[j].name == h.params[j].name
        &&& g.params[j].repr == h.params[j].repr
        &&& g.params[j].passing == Passing::Positional
        &&& h.params[j].passing == Passing::Positional
        &&& conversions_match(h.params[j].conversion, g.params[j].conversion)
    } by {
        crate::plan::lemma_boundary_conversions(f.params[j].param_type.kind, Side::Host, false);
    }
    match f.ret {
        Some(t) => {
            crate::plan::lemma_boundary_conversions(t.kind, Side::Guest, true);
        },
        None => {},
    }
}

} // verus!
