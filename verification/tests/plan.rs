use wasm_codegen::parser::{parse, AnyFunc};
use wasm_codegen::plan::{
    extra_interface_getter, extra_interface_type,
    big_call_slot, decoding, encoding, exported_symbol, guest_import_binding, host_call_method,
    host_export_field, multi_member_name, plan_exports, plan_imports, rust_type, Decoding,
    Encoding, PlanError, Side,
};
use wasm_codegen::value_type::{ParamType, ValueKind, ValueTypePool};

fn pool() -> ValueTypePool {
    let mut pool = ValueTypePool::default();
    pool.append_types(vec![
        "type: i32 kind: Native repr: I32 can_be_param: true".to_string(),
        "type: bool kind: Bool repr: I32 can_be_param: true".to_string(),
        "type: &String de: String kind: String repr: FatPtr can_be_param: true".to_string(),
    ]);
    pool
}

#[test]
fn names_of_generated_items() {
    assert_eq!(exported_symbol("give_string"), "__custom_exports_give_string");
    assert_eq!(guest_import_binding("extra"), "__custom_imports_extra");
    assert_eq!(host_call_method("main"), "call_main");
    assert_eq!(host_export_field("main"), "prop_main");
    assert_eq!(multi_member_name("multi_test", "a"), "multi_test_a");
}

#[test]
fn big_call_slots() {
    assert_eq!(big_call_slot(0), (0, 8));
    assert_eq!(big_call_slot(3), (24, 32));
    assert_eq!(big_call_slot(31), (248, 256));
}

#[test]
fn conversions_per_kind_and_side() {
    assert_eq!(encoding(ValueKind::Native, false), Encoding::Cast);
    assert_eq!(encoding(ValueKind::FatPtr, true), Encoding::Serialize);
    assert_eq!(encoding(ValueKind::Bool, false), Encoding::BoolAsI32);
    assert_eq!(encoding(ValueKind::String, false), Encoding::BorrowedStr);
    assert_eq!(encoding(ValueKind::String, true), Encoding::OwnedString);
    assert_eq!(decoding(ValueKind::String, Side::Host, false), Decoding::BorrowedString);
    assert_eq!(decoding(ValueKind::String, Side::Host, true), Decoding::OwnedString);
    assert_eq!(decoding(ValueKind::String, Side::Guest, false), Decoding::OwnedString);
    assert_eq!(decoding(ValueKind::Bool, Side::Guest, true), Decoding::I32IsOne);
    assert_eq!(decoding(ValueKind::FatPtr, Side::Host, false), Decoding::Deserialize);
    assert_eq!(decoding(ValueKind::Native, Side::Host, true), Decoding::Cast);
}

#[test]
fn signature_types() {
    let p = pool();
    let s = p.from_param_type(ParamType("&String")).unwrap();
    assert_eq!(rust_type(&s, false), "&String");
    assert_eq!(rust_type(&s, true), "String");
    let i = p.from_param_type(ParamType("i32")).unwrap();
    assert_eq!(rust_type(&i, true), "i32");
}

#[test]
fn import_plans_flatten_multi_functions() {
    let iface = parse(
        "imports {\n multi_test[\n  a(a: i32)\n  b(b: bool)\n ]\n log(msg: &String)\n}\nexports {\n}\n",
        &pool(),
    );
    let plans = plan_imports(iface.imports);
    assert_eq!(plans.len(), 3);
    assert_eq!(plans[0].api_name, "multi_test_a");
    assert_eq!(plans[0].symbol, "multi_test");
    assert_eq!(plans[0].multi_index, Some(0));
    assert!(plans[0].func.big_call);
    assert_eq!(plans[1].api_name, "multi_test_b");
    assert_eq!(plans[1].multi_index, Some(1));
    assert_eq!(plans[2].api_name, "log");
    assert_eq!(plans[2].symbol, "log");
    assert_eq!(plans[2].multi_index, None);
    assert!(!plans[2].func.big_call);
}

#[test]
fn export_plans_refuse_multi_functions() {
    let iface = parse(
        "imports {\n}\nexports {\n give(s: &String)\n main()\n}\n",
        &pool(),
    );
    let funcs = plan_exports(iface.exports).ok().unwrap();
    assert_eq!(funcs.len(), 2);
    assert_eq!(funcs[1].name, "main");
    let multi = parse("imports {\n}\nexports {\n m[\n  a()\n ]\n}\n", &pool());
    assert!(matches!(multi.exports[0], AnyFunc::MultiFunc(_)));
    assert_eq!(plan_exports(multi.exports).err(), Some(PlanError::MultiFuncExport));
}

#[test]
fn extra_interface_names() {
    assert_eq!(extra_interface_getter("extra_wasm"), "get_extra_wasm");
    assert_eq!(extra_interface_type("extra_wasm"), "ExtraInterface_extra_wasm");
}
