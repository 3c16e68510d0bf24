use wasm_codegen::value_type::{
    parse_type, ParamType, ReturnType, TypeDeclError, ValueKind, ValueRepr, ValueTypePool,
};

#[test]
fn pool() {
    let mut pool = ValueTypePool::default();
    pool.append_types(vec![
        "type: i8 kind: Native repr: I32 can_be_param: true".to_string(),
        "type: i16 kind: Native repr: I32 can_be_param: true".to_string(),
        "type: &String de: String kind: String repr: FatPtr can_be_param: true".to_string(),
        "type: shared::Custom kind: FatPtr repr: FatPtr can_be_param: true".to_string(),
    ]);
    println!("{:#?}", pool);
}

#[test]
fn pool_lookups() {
    let mut pool = ValueTypePool::default();
    pool.append_types(vec![
        "type: i8 kind: Native repr: I32 can_be_param: true".to_string(),
        "type: &String de: String kind: String repr: FatPtr can_be_param: true".to_string(),
        "type: String kind: String repr: FatPtr can_be_param: false".to_string(),
    ]);
    let s = pool.from_param_type(ParamType("&String")).unwrap();
    assert_eq!(s.name, "&String");
    assert_eq!(s.de.as_deref(), Some("String"));
    assert_eq!(s.kind, ValueKind::String);
    assert_eq!(s.repr, ValueRepr::FatPtr);
    assert!(s.can_be_param);
    assert!(pool.from_param_type(ParamType("String")).is_none());
    assert_eq!(pool.from_return_type(ReturnType("String")).unwrap().name, "String");
    assert!(pool.from_return_type(ReturnType("u8")).is_none());
}

#[test]
fn declaration_with_extra_blanks() {
    let t = parse_type(&"type:   u16   kind: Native repr: U32 can_be_param: false".to_string()).unwrap();
    assert_eq!(t.name, "u16");
    assert_eq!(t.kind, ValueKind::Native);
    assert_eq!(t.repr, ValueRepr::U32);
    assert!(!t.can_be_param);
    assert_eq!(t.de, None);
}

#[test]
fn later_property_wins() {
    let t = parse_type(&"type: a type: b kind: Bool repr: I32 can_be_param: true".to_string()).unwrap();
    assert_eq!(t.name, "b");
    assert_eq!(t.kind, ValueKind::Bool);
}

#[test]
fn refused_declarations() {
    let e = |s: &str| parse_type(&s.to_string()).unwrap_err();
    assert_eq!(e("type: a kind: Nope repr: I32 can_be_param: true"), TypeDeclError::UnknownKind);
    assert_eq!(e("type: a kind: Native repr: Nope can_be_param: true"), TypeDeclError::UnknownRepr);
    assert_eq!(e("type: a color: red"), TypeDeclError::UnknownProperty);
    assert_eq!(e("type a"), TypeDeclError::MalformedProperty);
    assert_eq!(e(""), TypeDeclError::MalformedProperty);
    assert_eq!(e("kind: Native repr: I32 can_be_param: true"), TypeDeclError::MissingType);
    assert_eq!(e("type: a repr: I32 can_be_param: true"), TypeDeclError::MissingKind);
    assert_eq!(e("type: a kind: Native can_be_param: true"), TypeDeclError::MissingRepr);
    assert_eq!(e("type: a kind: Native repr: I32"), TypeDeclError::MissingCanBeParam);
}

#[test]
fn failed_append_leaves_pool_unchanged() {
    let mut pool = ValueTypePool::default();
    let r = pool.try_append_types(vec![
        "type: a kind: Native repr: I32 can_be_param: true".to_string(),
        "type: b kind: Nope repr: I32 can_be_param: true".to_string(),
    ]);
    assert_eq!(r, Err(TypeDeclError::UnknownKind));
    assert!(pool.from_return_type(ReturnType("a")).is_none());
}

#[test]
fn repr_rust_types() {
    assert_eq!(ValueRepr::I32.rust_type(), "i32");
    assert_eq!(ValueRepr::F64.rust_type(), "f64");
    assert_eq!(ValueRepr::FatPtr.rust_type(), "super::__shared::FatPtr");
    assert_eq!(ValueKind::from_name(&"Bool".to_string()), Some(ValueKind::Bool));
    assert_eq!(ValueRepr::from_name(&"U64".to_string()), Some(ValueRepr::U64));
    assert_eq!(ValueRepr::from_name(&"u64".to_string()), None);
}

#[test]
fn parse_types_keeps_order_and_reports_first_refusal() {
    let ts = ValueTypePool::parse_types(vec![
        "type: u8 kind: Native repr: U32 can_be_param: true".to_string(),
        "type: bool kind: Bool repr: I32 can_be_param: false".to_string(),
    ])
    .unwrap();
    assert_eq!(ts.len(), 2);
    assert_eq!(ts[0].name, "u8");
    assert_eq!(ts[1].name, "bool");
    assert_eq!(ts[1].kind, ValueKind::Bool);
    let r = ValueTypePool::parse_types(vec![
        "type: a color: red".to_string(),
        "type: b kind: Nope repr: I32 can_be_param: true".to_string(),
    ]);
    assert_eq!(r.unwrap_err(), TypeDeclError::UnknownProperty);
}
