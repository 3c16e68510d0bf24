//! What the binding generators emit for each function of an interface:
//! names, argument slots, and how each value is converted on each side.
use vstd::prelude::*;
use crate::num_bytes::{BYTES_TO_STORE_U64_32_TIMES, U64_SIZE};
use crate::parser::{
    AnyFunc, AnyFuncModel, Func, FuncModel, MultiFunc, MultiFuncModel, anys_view, funcs_view,
    func_wf, any_wf, entries_wf, BIG_CALL_MAX_PARAMS,
};
use crate::parser::{spec_parse, lemma_parsed_functions_well_formed};
use crate::value_type::{ValueKind, ValueType, ValueTypeModel};

verus! {

/// `a` followed by `b`.
pub fn concat(a: &str, b: &str) -> (res: String)
    ensures
        res@ == a@ + b@,
{
    let mut r = a.to_owned();
    r.append(b);
    r
}

/// The side of the boundary that runs a piece of generated code.
#[derive(Debug, PartialEq, Eq, Clone, Copy, Structural)]
pub enum Side {
    Host,
    Guest,
}

/// How the sending side puts a value into its wasm representation.
#[derive(Debug, PartialEq, Eq, Clone, Copy, Structural)]
pub enum Encoding {
    /// `value as repr`.
    Cast,
    /// Serialized, the bytes passed by fat pointer.
    Serialize,
    /// `value as i32`.
    BoolAsI32,
    /// The bytes of a borrowed string, passed by fat pointer.
    BorrowedStr,
    /// The bytes of an owned string, handed over by fat pointer.
    OwnedString,
}

/// How the receiving side turns a wasm value back into a Rust value.
#[derive(Debug, PartialEq, Eq, Clone, Copy, Structural)]
pub enum Decoding {
    /// `value as rust_type`.
    Cast,
    /// Deserialized from the bytes behind a fat pointer, which are freed.
    Deserialize,
    /// `value == 1`.
    I32IsOne,
    /// A string taken over from the bytes behind a fat pointer, which are
    /// freed.
    OwnedString,
    /// A string copied from bytes that the sender keeps.
    BorrowedString,
}

/// The encoding of a value of `kind`, sent as a parameter or as a result.
pub open spec fn spec_encoding(kind: ValueKind, is_result: bool) -> Encoding {
    match kind {
        ValueKind::Native => Encoding::Cast,
        ValueKind::FatPtr => Encoding::Serialize,
        ValueKind::Bool => Encoding::BoolAsI32,
        ValueKind::String => if is_result {
            Encoding::OwnedString
        } else {
            Encoding::BorrowedStr
        },
    }
}

/// The decoding of a value of `kind` that `side` receives as a parameter
/// or as a result.
pub open spec fn spec_decoding(kind: ValueKind, side: Side, is_result: bool) -> Decoding {
    match kind {
        ValueKind::Native => Decoding::Cast,
        ValueKind::FatPtr => Decoding::Deserialize,
        ValueKind::Bool => Decoding::I32IsOne,
        ValueKind::String => if side == Side::Host && !is_result {
            Decoding::BorrowedString
        } else {
            Decoding::OwnedString
        },
    }
}

/// How a value of `kind` is encoded when it is sent as a parameter
/// (`is_result` false) or as a result.
pub fn encoding(kind: ValueKind, is_result: bool) -> (res: Encoding)
    ensures
        res == spec_encoding(kind, is_result),
{
    match kind {
        ValueKind::Native => Encoding::Cast,
        ValueKind::FatPtr => Encoding::Serialize,
        ValueKind::Bool => Encoding::BoolAsI32,
        ValueKind::String => if is_result {
            Encoding::OwnedString
        } else {
            Encoding::BorrowedStr
        },
    }
}

/// How `side` decodes a value of `kind` that it receives as a parameter
/// (`is_result` false) or as a result.
pub fn decoding(kind: ValueKind, side: Side, is_result: bool) -> (res: Decoding)
    ensures
        res == spec_decoding(kind, side, is_result),
{
    match kind {
        ValueKind::Native => Decoding::Cast,
        ValueKind::FatPtr => Decoding::Deserialize,
        ValueKind::Bool => Decoding::I32IsOne,
        ValueKind::String => if side == Side::Host && !is_result {
            Decoding::BorrowedString
        } else {
            Decoding::OwnedString
        },
    }
}

pub open spec fn other_side(s: Side) -> Side {
    match s {
        Side::Host => Side::Guest,
        Side::Guest => Side::Host,
    }
}

/// The decoding undoes the encoding.
pub open spec fn conversions_match(e: Encoding, d: Decoding) -> bool {
    match e {
        Encoding::Cast => d == Decoding::Cast,
        Encoding::Serialize => d == Decoding::Deserialize,
        Encoding::BoolAsI32 => d == Decoding::I32IsOne,
        Encoding::BorrowedStr => d == Decoding::BorrowedString || d == Decoding::OwnedString,
        Encoding::OwnedString => d == Decoding::OwnedString,
    }
}

/// The value travels as bytes behind a fat pointer.
pub open spec fn passes_buffer(e: Encoding) -> bool {
    e == Encoding::Serialize || e == Encoding::BorrowedStr || e == Encoding::OwnedString
}

/// The sender keeps the bytes it passes: a guest passes a borrowed string
/// in place, while the host always copies into guest memory.
pub open spec fn sender_keeps(sender: Side, e: Encoding) -> bool {
    sender == Side::Guest && e == Encoding::BorrowedStr
}

/// The receiver frees the bytes behind the fat pointer.
pub open spec fn receiver_frees(d: Decoding) -> bool {
    d == Decoding::Deserialize || d == Decoding::OwnedString
}

/// For every value that crosses the boundary, in either direction, as a
/// parameter or as a result: the receiver's decoding undoes the sender's
/// encoding, and a buffer that travels is freed by the receiver exactly
/// when the sender does not keep it.
pub proof fn lemma_boundary_conversions(kind: ValueKind, sender: Side, is_result: bool)
    ensures
        conversions_match(
            spec_encoding(kind, is_result),
            spec_decoding(kind, other_side(sender), is_result),
        ),
        passes_buffer(spec_encoding(kind, is_result)) ==> (receiver_frees(
            spec_decoding(kind, other_side(sender), is_result),
        ) <==> !sender_keeps(sender, spec_encoding(kind, is_result))),
{
}

/// The Rust type of a value in a signature: the type it is deserialized
/// into on the receiving side (`deserialization`), else the declared type.
pub open spec fn spec_rust_type(t: ValueTypeModel, deserialization: bool) -> Seq<char> {
    if deserialization && t.de is Some {
        t.de->Some_0
    } else {
        t.name
    }
}

/// The Rust type of a value in a signature.
pub fn rust_type(t: &ValueType, deserialization: bool) -> (res: String)
    ensures
        res@ == spec_rust_type(t@, deserialization),
{
    if deserialization {
        match &t.de {
            Some(de) => {
                return de.clone();
            },
            None => {},
        }
    }
    t.name.clone()
}

/// The symbol under which a guest exports `name`.
pub fn exported_symbol(name: &str) -> (res: String)
    ensures
        res@ == "__custom_exports_"@ + name@,
{
    concat("__custom_exports_", name)
}

/// The guest's binding of the wasm import `symbol`.
pub fn guest_import_binding(symbol: &str) -> (res: String)
    ensures
        res@ == "__custom_imports_"@ + symbol@,
{
    concat("__custom_imports_", symbol)
}

/// The host method that calls the guest export `name`.
pub fn host_call_method(name: &str) -> (res: String)
    ensures
        res@ == "call_"@ + name@,
{
    concat("call_", name)
}

/// The host field that holds the guest export `name`.
pub fn host_export_field(name: &str) -> (res: String)
    ensures
        res@ == "prop_"@ + name@,
{
    concat("prop_", name)
}

/// The method of the host's imports trait that gives the implementation of
/// the extra interface named `interface`.
pub fn extra_interface_getter(interface: &str) -> (res: String)
    ensures
        res@ == "get_"@ + interface@,
{
    concat("get_", interface)
}

/// The associated type of the host's imports trait that implements the
/// extra interface named `interface`.
pub fn extra_interface_type(interface: &str) -> (res: String)
    ensures
        res@ == "ExtraInterface_"@ + interface@,
{
    concat("ExtraInterface_", interface)
}

/// The name of member `member` of multi function `multi`.
pub fn multi_member_name(multi: &str, member: &str) -> (res: String)
    ensures
        res@ == multi@ + "_"@ + member@,
{
    let mut r = concat(multi, "_");
    r.append(member);
    r
}

/// Start of the slot of argument `index` in the big-call buffer.
pub open spec fn slot_start(index: int) -> int {
    index * U64_SIZE
}

/// The bytes `start..end` of the big-call buffer that hold argument `index`.
pub fn big_call_slot(index: usize) -> (res: (usize, usize))
    requires
        index < BIG_CALL_MAX_PARAMS,
    ensures
        res.0 == slot_start(index as int),
        res.1 == slot_start(index + 1),
        res.1 <= BYTES_TO_STORE_U64_32_TIMES,
{
    (index * U64_SIZE, (index + 1) * U64_SIZE)
}

/// One wasm-level call for an imported function.
#[derive(Debug, PartialEq)]
pub struct ImportPlan {
    /// The function's name in the generated API; for a member of a multi
    /// function, `{multi}_{member}`.
    pub api_name: String,
    /// The wasm import that carries the call: the function's own name, or
    /// the multi function's.
    pub symbol: String,
    /// The member's position in its multi function.
    pub multi_index: Option<usize>,
    pub func: Func,
}

pub struct ImportPlanModel {
    pub api_name: Seq<char>,
    pub symbol: Seq<char>,
    pub multi_index: Option<int>,
    pub func: FuncModel,
}

impl View for ImportPlan {
    type V = ImportPlanModel;

    open spec fn view(&self) -> ImportPlanModel {
        ImportPlanModel {
            api_name: self.api_name@,
            symbol: self.symbol@,
            multi_index: match self.multi_index {
                Some(i) => Some(i as int),
                None => None,
            },
            func: self.func@,
        }
    }
}

pub open spec fn plans_view(v: Seq<ImportPlan>) -> Seq<ImportPlanModel> {
    v.map_values(|p: ImportPlan| p@)
}

/// The calls of the members of a multi function, in order.
pub open spec fn member_plans(m: MultiFuncModel) -> Seq<ImportPlanModel> {
    Seq::new(
        m.funcs.len(),
        |i: int|
            ImportPlanModel {
                api_name: m.name + "_"@ + m.funcs[i].name,
                symbol: m.name,
                multi_index: Some(i),
                func: m.funcs[i],
            },
    )
}

/// The calls of one entry of an imports section.
pub open spec fn entry_plans(a: AnyFuncModel) -> Seq<ImportPlanModel> {
    match a {
        AnyFuncModel::Normal(f) => seq![
            ImportPlanModel { api_name: f.name, symbol: f.name, multi_index: None, func: f },
        ],
        AnyFuncModel::Multi(m) => member_plans(m),
    }
}

/// The calls of an imports section, entry by entry.
pub open spec fn import_plans(entries: Seq<AnyFuncModel>) -> Seq<ImportPlanModel>
    decreases entries.len(),
{
    if entries.len() == 0 {
        Seq::empty()
    } else {
        import_plans(entries.drop_last()) + entry_plans(entries.last())
    }
}

proof fn lemma_plans_push(v: Seq<ImportPlan>, p: ImportPlan)
    ensures
        plans_view(v.push(p)) == plans_view(v).push(p@),
{
    assert(plans_view(v.push(p)) =~= plans_view(v).push(p@));
}

/// Splits a multi function into the calls of its members.
fn plan_members(m: MultiFunc, out: &mut Vec<ImportPlan>)
    ensures
        plans_view(final(out)@) == plans_view(old(out)@) + member_plans(m@),
{
    let ghost start = plans_view(out@);
    let ghost model = m@;
    let MultiFunc { name, funcs } = m;
    let mut funcs = funcs;
    let ghost all = funcs@;
    assert(all.len() == funcs.len());
    let mut index: usize = 0;
    assert(member_plans(model).take(0) =~= Seq::<ImportPlanModel>::empty());
    assert(start + Seq::<ImportPlanModel>::empty() =~= start);
    while funcs.len() > 0
        invariant
            index <= all.len(),
            all.len() <= usize::MAX,
            funcs@ == all.skip(index as int),
            model.name == name@,
            model.funcs == funcs_view(all),
            plans_view(out@) == start + member_plans(model).take(index as int),
        decreases funcs.len(),
    {
        let f = funcs.remove(0);
        assert(f == all[index as int]);
        assert(all.skip(index as int).remove(0) =~= all.skip(index + 1));
        let api_name = multi_member_name(name.as_str(), f.name.as_str());
        let plan = ImportPlan { api_name, symbol: name.clone(), multi_index: Some(index), func: f };
        proof {
            lemma_plans_push(out@, plan);
            assert(member_plans(model).take(index + 1) =~= member_plans(model).take(index as int).push(plan@));
            assert(start + member_plans(model).take(index as int).push(plan@) =~= (start
                + member_plans(model).take(index as int)).push(plan@));
        }
        out.push(plan);
        index = index + 1;
    }
    assert(all.skip(index as int).len() == 0);
    assert(member_plans(model).take(index as int) =~= member_plans(model));
}

/// The wasm-level calls of an imports section: a function is one call of
/// its own; each member of a multi function is a call of the multi
/// function's import, told apart by its index.
pub fn plan_imports(imports: Vec<AnyFunc>) -> (res: Vec<ImportPlan>)
    ensures
        plans_view(res@) == import_plans(anys_view(imports@)),
{
    let ghost all = anys_view(imports@);
    let mut imports = imports;
    let ghost orig = imports@;
    assert(orig.len() == imports.len());
    let mut out: Vec<ImportPlan> = Vec::new();
    let mut k: usize = 0;
    assert(plans_view(out@) =~= Seq::<ImportPlanModel>::empty());
    assert(all.take(0) =~= Seq::<AnyFuncModel>::empty());
    while imports.len() > 0
        invariant
            k <= orig.len(),
            orig.len() <= usize::MAX,
            imports@ == orig.skip(k as int),
            all == anys_view(orig),
            plans_view(out@) == import_plans(all.take(k as int)),
        decreases imports.len(),
    {
        let a = imports.remove(0);
        assert(a == orig[k as int]);
        assert(orig.skip(k as int).remove(0) =~= orig.skip(k + 1));
        assert(all.take(k + 1).drop_last() =~= all.take(k as int));
        assert(all.take(k + 1).last() == a@);
        match a {
            AnyFunc::Normal(f) => {
                let name = f.name.clone();
                let symbol = f.name.clone();
                let plan = ImportPlan { api_name: name, symbol, multi_index: None, func: f };
                proof {
                    lemma_plans_push(out@, plan);
                    assert(entry_plans(a@) =~= seq![plan@]);
                }
                out.push(plan);
            },
            AnyFunc::MultiFunc(m) => {
                plan_members(m, &mut out);
            },
        }
        k = k + 1;
    }
    assert(orig.skip(k as int).len() == 0);
    assert(all.take(k as int) =~= all);
    out
}

/// Why a binding generator refuses an interface.
#[derive(Debug, PartialEq, Eq, Clone, Copy, Structural)]
pub enum PlanError {
    /// Multi functions can only be imported.
    MultiFuncExport,
}

/// The functions of an exports section, or `None` when it holds a multi
/// function.
pub open spec fn export_funcs(entries: Seq<AnyFuncModel>) -> Option<Seq<FuncModel>>
    decreases entries.len(),
{
    if entries.len() == 0 {
        Some(Seq::empty())
    } else {
        match (export_funcs(entries.drop_last()), entries.last()) {
            (Some(fs), AnyFuncModel::Normal(f)) => Some(fs.push(f)),
            _ => None,
        }
    }
}

proof fn lemma_export_funcs_none(entries: Seq<AnyFuncModel>, k: int)
    requires
        0 <= k <= entries.len(),
        export_funcs(entries.take(k)) is None,
    ensures
        export_funcs(entries) is None,
    decreases entries.len() - k,
{
    if k == entries.len() {
        assert(entries.take(k) =~= entries);
    } else {
        assert(entries.take(k + 1).drop_last() =~= entries.take(k));
        lemma_export_funcs_none(entries, k + 1);
    }
}

/// The functions of an exports section, in order; a multi function is
/// refused.
pub fn plan_exports(entries: Vec<AnyFunc>) -> (res: Result<Vec<Func>, PlanError>)
    ensures
        res matches Ok(fs) ==> export_funcs(anys_view(entries@)) == Some(funcs_view(fs@)),
        res is Err ==> res == Err::<Vec<Func>, PlanError>(PlanError::MultiFuncExport)
            && export_funcs(anys_view(entries@)) is None,
{
    let ghost all = anys_view(entries@);
    let mut exports = entries;
    let ghost orig = exports@;
    assert(orig.len() == exports.len());
    let mut out: Vec<Func> = Vec::new();
    let mut k: usize = 0;
    assert(funcs_view(out@) =~= Seq::<FuncModel>::empty());
    assert(all.take(0) =~= Seq::<AnyFuncModel>::empty());
    while exports.len() > 0
        invariant
            k <= orig.len(),
            orig.len() <= usize::MAX,
            exports@ == orig.skip(k as int),
            all == anys_view(orig),
            all == anys_view(entries@),
            export_funcs(all.take(k as int)) == Some(funcs_view(out@)),
        decreases exports.len(),
    {
        let a = exports.remove(0);
        assert(a == orig[k as int]);
        assert(orig.skip(k as int).remove(0) =~= orig.skip(k + 1));
        assert(all.take(k + 1).drop_last() =~= all.take(k as int));
        assert(all.take(k + 1).last() == a@);
        match a {
            AnyFunc::Normal(f) => {
                proof {
                    assert(funcs_view(out@.push(f)) =~= funcs_view(out@).push(f@));
                }
                out.push(f);
            },
            AnyFunc::MultiFunc(_) => {
                proof {
                    assert(all.take(k + 1).last() is Multi);
                    assert(export_funcs(all.take(k + 1)) is None);
                    lemma_export_funcs_none(all, k + 1);
                    assert(export_funcs(all) is None);
                }
                return Err(PlanError::MultiFuncExport);
            },
        }
        k = k + 1;
    }
    assert(orig.skip(k as int).len() == 0);
    assert(all.take(k as int) =~= all);
    Ok(out)
}

proof fn lemma_import_plans_wf(entries: Seq<AnyFuncModel>)
    requires
        entries_wf(entries),
    ensures
        forall|i: int|
            0 <= i < import_plans(entries).len() ==> func_wf(#[trigger] import_plans(entries)[i].func),
    decreases entries.len(),
{
    if entries.len() > 0 {
        let init = entries.drop_last();
        assert forall|i: int| 0 <= i < init.len() implies any_wf(#[trigger] init[i]) by {
            assert(init[i] == entries[i]);
        }
        lemma_import_plans_wf(init);
        assert(any_wf(entries[entries.len() - 1]));
        let ps = import_plans(entries);
        let a = import_plans(init);
        let b = entry_plans(entries.last());
        assert forall|i: int| 0 <= i < ps.len() implies func_wf(#[trigger] ps[i].func) by {
            if i < a.len() {
                assert(ps[i] == a[i]);
            } else {
                assert(ps[i] == b[i - a.len()]);
                match entries.last() {
                    AnyFuncModel::Normal(f) => {},
                    AnyFuncModel::Multi(m) => {
                        assert(func_wf(m.funcs[i - a.len()]));
                    },
                }
            }
        }
    }
}

/// Every argument of every import call planned for `entries` has its slot
/// inside the big-call buffer.
pub open spec fn import_slots_fit(entries: Seq<AnyFuncModel>) -> bool {
    forall|i: int, j: int|
        #![trigger import_plans(entries)[i].func.params[j]]
        0 <= i < import_plans(entries).len() && 0 <= j < import_plans(entries)[i].func.params.len()
            ==> slot_start(j + 1) <= BYTES_TO_STORE_U64_32_TIMES
}

/// Every argument of every call of a well-formed imports section has its
/// slot inside the big-call buffer.
pub proof fn lemma_import_slots_fit(entries: Seq<AnyFuncModel>)
    requires
        entries_wf(entries),
    ensures
        import_slots_fit(entries),
{
    lemma_import_plans_wf(entries);
    assert forall|i: int, j: int|
        #![trigger import_plans(entries)[i].func.params[j]]
        0 <= i < import_plans(entries).len() && 0 <= j < import_plans(entries)[i].func.params.len()
        implies slot_start(j + 1) <= BYTES_TO_STORE_U64_32_TIMES by {
        assert(func_wf(import_plans(entries)[i].func));
    }
}

/// Every argument of every import call of a parsed interface has its slot
/// inside the big-call buffer.
pub proof fn lemma_parsed_import_slots_fit(input: Seq<char>, pool: Seq<ValueTypeModel>)
    requires
        spec_parse(input, pool) is Ok,
    ensures
        import_slots_fit(spec_parse(input, pool)->Ok_0.imports),
{
    lemma_parsed_functions_well_formed(input, pool);
    lemma_import_slots_fit(spec_parse(input, pool)->Ok_0.imports);
}

} // verus!
