use wasm_codegen::binding::{
    guest_export_binding_plan, guest_import_binding_plan, host_export_binding_plan,
    host_import_binding_plan, HostResult, Passing, ResultTransport,
};
use wasm_codegen::parser::parse;
use wasm_codegen::plan::{plan_exports, plan_imports, Decoding, Encoding};
use wasm_codegen::value_type::{ValueRepr, ValueTypePool};

fn pool() -> ValueTypePool {
    let mut pool = ValueTypePool::default();
    pool.append_types(vec![
        "type: i32 kind: Native repr: I32 can_be_param: true".to_string(),
        "type: bool kind: Bool repr: I32 can_be_param: true".to_string(),
        "type: &String de: String kind: String repr: FatPtr can_be_param: true".to_string(),
        "type: String kind: String repr: FatPtr can_be_param: false".to_string(),
    ]);
    pool
}

#[test]
fn multi_member_bindings_use_slots_and_dispatch() {
    let iface = parse(
        "imports {\n multi_test[\n  a(a: i32, b: bool)\n  b()\n ]\n}\nexports {\n}\n",
        &pool(),
    );
    let plans = plan_imports(iface.imports);
    let g = guest_import_binding_plan(&plans[0]);
    let h = host_import_binding_plan(&plans[0]);
    assert_eq!(g.wrapper, "multi_test_a");
    assert_eq!(g.link_name, "multi_test");
    assert_eq!(g.raw_fn, "__custom_imports_multi_test");
    assert_eq!(g.multi_index, Some(0));
    assert_eq!(h.dispatch, Some(0));
    assert_eq!(h.symbol, "multi_test");
    assert_eq!(h.method, "multi_test_a");
    assert_eq!(g.params[0].passing, Passing::Slot { start: 0, end: 8 });
    assert_eq!(g.params[1].passing, Passing::Slot { start: 8, end: 16 });
    assert_eq!(h.params[1].passing, Passing::Slot { start: 8, end: 16 });
    assert_eq!(g.params[1].conversion, Encoding::BoolAsI32);
    assert_eq!(h.params[1].conversion, Decoding::I32IsOne);
    assert_eq!(h.ret, HostResult::Zero);
    let h_b = host_import_binding_plan(&plans[1]);
    assert_eq!(h_b.dispatch, Some(1));
    assert!(h_b.params.is_empty());
    assert_eq!(h_b.ret, HostResult::Zero);
}

#[test]
fn plain_import_bindings_are_positional() {
    let iface = parse(
        "imports {\n log(msg: &String) -> String\n ping()\n}\nexports {\n}\n",
        &pool(),
    );
    let plans = plan_imports(iface.imports);
    let g = guest_import_binding_plan(&plans[0]);
    let h = host_import_binding_plan(&plans[0]);
    assert_eq!(g.params[0].passing, Passing::Positional);
    assert_eq!(g.params[0].rust_type, "&String");
    assert_eq!(h.params[0].rust_type, "String");
    assert_eq!(g.params[0].repr, ValueRepr::FatPtr);
    assert_eq!(g.params[0].conversion, Encoding::BorrowedStr);
    assert_eq!(h.params[0].conversion, Decoding::BorrowedString);
    assert_eq!(g.multi_index, None);
    match &h.ret {
        HostResult::Value(r) => assert_eq!(r.conversion, Encoding::OwnedString),
        other => panic!("unexpected {other:?}"),
    }
    assert_eq!(g.ret.as_ref().unwrap().conversion, Decoding::OwnedString);
    assert_eq!(host_import_binding_plan(&plans[1]).ret, HostResult::Unit);
}

#[test]
fn export_bindings_of_both_sides() {
    let iface = parse(
        "imports {\n}\nexports {\n give(s: &String, flag: bool) -> i32\n}\n",
        &pool(),
    );
    let funcs = plan_exports(iface.exports).ok().unwrap();
    let g = guest_export_binding_plan(&funcs[0]);
    let h = host_export_binding_plan(&funcs[0]);
    assert_eq!(g.method, "give");
    assert_eq!(g.symbol, "__custom_exports_give");
    assert_eq!(h.symbol, "__custom_exports_give");
    assert_eq!(h.method, "call_give");
    assert_eq!(h.field, "prop_give");
    assert_eq!(h.params[0].conversion, Encoding::BorrowedStr);
    assert_eq!(g.params[0].conversion, Decoding::OwnedString);
    assert_eq!(g.params[0].rust_type, "String");
    assert_eq!(h.params[0].rust_type, "&String");
    assert_eq!(g.params[1].passing, Passing::Positional);
    assert_eq!(g.ret.as_ref().unwrap().conversion, Encoding::Cast);
    assert_eq!(h.ret.as_ref().unwrap().conversion, Decoding::Cast);
}

#[test]
fn multi_member_result_travels_as_u64() {
    let iface = parse(
        "imports {\n m[\n  flag(x: i32) -> bool\n  name() -> String\n ]\n one(x: i32) -> i32\n}\nexports {\n}\n",
        &pool(),
    );
    let plans = plan_imports(iface.imports);
    let g = guest_import_binding_plan(&plans[0]);
    let h = host_import_binding_plan(&plans[0]);
    assert_eq!(g.ret_transport, ResultTransport::U64);
    assert_eq!(g.ret.as_ref().unwrap().conversion, Decoding::I32IsOne);
    assert_eq!(g.ret.as_ref().unwrap().repr, ValueRepr::I32);
    match &h.ret {
        HostResult::Widened(r) => {
            assert_eq!(r.conversion, Encoding::BoolAsI32);
            assert_eq!(r.repr, ValueRepr::I32);
        }
        other => panic!("unexpected {other:?}"),
    }
    match &host_import_binding_plan(&plans[1]).ret {
        HostResult::Widened(r) => assert_eq!(r.conversion, Encoding::OwnedString),
        other => panic!("unexpected {other:?}"),
    }
    let g_one = guest_import_binding_plan(&plans[2]);
    assert_eq!(g_one.ret_transport, ResultTransport::Repr);
    assert!(matches!(host_import_binding_plan(&plans[2]).ret, HostResult::Value(_)));
}
