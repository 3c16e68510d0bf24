use wasm_codegen::parser::{parse, try_parse, AnyFunc, Func, Interface, MultiFunc, Param, ParseError};
use wasm_codegen::value_type::{ValueKind, ValueRepr, ValueType, ValueTypePool};

fn native(name: &str, repr: ValueRepr) -> ValueType {
    ValueType {
        name: name.to_string(),
        de: None,
        kind: ValueKind::Native,
        repr,
        can_be_param: true,
    }
}

fn pool() -> ValueTypePool {
    let mut pool = ValueTypePool::default();
    pool.append_types(vec![
        "type: I32 kind: Native repr: I32 can_be_param: true".to_string(),
        "type: F32 kind: Native repr: F32 can_be_param: true".to_string(),
    ]);
    pool
}

fn parse_and_check(input: &str, interface: Interface) {
    let parsed = parse(input, &pool());
    assert_eq!(parsed, interface);
}

#[test]
fn empty() {
    parse_and_check(
        "
            imports {
                
            }

            exports {

            }
        ",
        Interface {
            imports: vec![],
            exports: vec![],
        },
    );
}

#[test]
fn normal_funcs() {
    parse_and_check(
        "
            imports {
                test_import(a: I32)
            }

            exports {
                test_export(b: F32)
            }
        ",
        Interface {
            imports: vec![AnyFunc::Normal(Func {
                name: "test_import".to_string(),
                params: vec![Param {
                    name: "a".to_string(),
                    param_type: native("I32", ValueRepr::I32),
                }],
                ret: None,
                big_call: false,
            })],

            exports: vec![AnyFunc::Normal(Func {
                name: "test_export".to_string(),
                params: vec![Param {
                    name: "b".to_string(),
                    param_type: native("F32", ValueRepr::F32),
                }],
                ret: None,
                big_call: false,
            })],
        },
    );
}

#[test]
fn multi_func() {
    parse_and_check(
        "
            imports {
                test_multi_import[
                    first()
                    second()
                    third()
                ]
                test_import()
            }

            exports {
                test_export()
            }
        ",
        Interface {
            imports: vec![
                AnyFunc::MultiFunc(MultiFunc {
                    name: "test_multi_import".to_string(),
                    funcs: vec![
                        Func {
                            name: "first".to_string(),
                            params: vec![],
                            ret: None,
                            big_call: false,
                        },
                        Func {
                            name: "second".to_string(),
                            params: vec![],
                            ret: None,
                            big_call: false,
                        },
                        Func {
                            name: "third".to_string(),
                            params: vec![],
                            ret: None,
                            big_call: false,
                        },
                    ],
                }),
                AnyFunc::Normal(Func {
                    name: "test_import".to_string(),
                    params: vec![],
                    ret: None,
                    big_call: false,
                }),
            ],

            exports: vec![AnyFunc::Normal(Func {
                name: "test_export".to_string(),
                params: vec![],
                ret: None,
                big_call: false,
            })],
        },
    );
}

#[test]
fn return_type_after_arrow() {
    let parsed = parse(
        "imports {\n  f(a: I32, b: F32) -> F32\n}\nexports {\n}\n",
        &pool(),
    );
    match &parsed.imports[0] {
        AnyFunc::Normal(f) => {
            assert_eq!(f.name, "f");
            assert_eq!(f.params.len(), 2);
            assert_eq!(f.params[1].name, "b");
            assert_eq!(f.ret, Some(native("F32", ValueRepr::F32)));
            assert!(!f.big_call);
        }
        _ => panic!("expected a normal function"),
    }
}

#[test]
fn multi_func_members_with_params_use_big_call() {
    let parsed = parse(
        "imports {\n m[\n  a(x: I32)\n  b()\n ]\n}\nexports {\n}\n",
        &pool(),
    );
    match &parsed.imports[0] {
        AnyFunc::MultiFunc(m) => {
            assert_eq!(m.name, "m");
            assert!(m.funcs[0].big_call);
            assert!(!m.funcs[1].big_call);
        }
        _ => panic!("expected a multi function"),
    }
}

#[test]
fn sixteen_params_use_big_call() {
    let params: Vec<String> = (0..16).map(|i| format!("p{i}: I32")).collect();
    let input = format!("imports {{\n f({})\n}}\nexports {{\n}}\n", params.join(", "));
    let parsed = parse(&input, &pool());
    match &parsed.imports[0] {
        AnyFunc::Normal(f) => {
            assert_eq!(f.params.len(), 16);
            assert!(f.big_call);
        }
        _ => panic!("expected a normal function"),
    }
}

#[test]
fn too_many_params_are_refused() {
    let params: Vec<String> = (0..33).map(|i| format!("p{i}: I32")).collect();
    let input = format!("imports {{\n f({})\n}}\nexports {{\n}}\n", params.join(", "));
    assert_eq!(try_parse(&input, &pool()), Err(ParseError::TooManyParams));
}

#[test]
fn refusals() {
    let p = pool();
    assert_eq!(try_parse("imports {\n}\nimports {\n}\n", &p), Err(ParseError::SectionRepeated));
    assert_eq!(try_parse("stuff {\n}\n", &p), Err(ParseError::UnknownSection));
    assert_eq!(try_parse("f()\n", &p), Err(ParseError::NoSection));
    assert_eq!(
        try_parse("imports {\n f()\n f()\n}\nexports {\n}\n", &p),
        Err(ParseError::DuplicateFuncName)
    );
    assert_eq!(
        try_parse("imports {\n f(a: I32, a: I32)\n}\nexports {\n}\n", &p),
        Err(ParseError::DuplicateParamName)
    );
    assert_eq!(
        try_parse("imports {\n f(a: Nope)\n}\nexports {\n}\n", &p),
        Err(ParseError::UnknownParamType)
    );
    assert_eq!(
        try_parse("imports {\n f() -> Nope\n}\nexports {\n}\n", &p),
        Err(ParseError::UnknownReturnType)
    );
    assert_eq!(
        try_parse("imports {\n f() -x I32\n}\nexports {\n}\n", &p),
        Err(ParseError::MisplacedArrow)
    );
    assert_eq!(try_parse("exports {\n}\n", &p), Err(ParseError::MissingImports));
    assert_eq!(try_parse("imports {\n}\n", &p), Err(ParseError::MissingExports));
    assert_eq!(try_parse("imports {\n ]\n}\n", &p), Err(ParseError::NoOpenMultiFunc));
    assert_eq!(try_parse("imports {\n a[ b[\n}\n", &p), Err(ParseError::MultiFuncAlreadyOpen));
    assert_eq!(try_parse("imports {\n f(g(\n}\n", &p), Err(ParseError::FuncAlreadyOpen));
    assert_eq!(try_parse("imports {\n )\n}\n", &p), Err(ParseError::NoOpenFunc));
    assert_eq!(try_parse("imports {\n f(a: b:\n}\n", &p), Err(ParseError::ParamNameAlreadyOpen));
    assert_eq!(try_parse("imports {\n f(I32)\n}\n", &p), Err(ParseError::MissingParamName));
}
