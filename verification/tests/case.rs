use wasm_codegen::case::{ascii_camel_or_pascal_to_snake_case, ascii_snake_to_pascal_case};

#[test]
fn snake_case_of_camel_and_pascal() {
    assert_eq!(ascii_camel_or_pascal_to_snake_case("ExtraWasm"), "extra_wasm");
    assert_eq!(ascii_camel_or_pascal_to_snake_case("getBigCallPtr"), "get_big_call_ptr");
    assert_eq!(ascii_camel_or_pascal_to_snake_case("already_snake"), "already_snake");
    assert_eq!(ascii_camel_or_pascal_to_snake_case("HTTPServer"), "ht_tp_server");
    assert_eq!(ascii_camel_or_pascal_to_snake_case("AbC"), "ab_c");
    assert_eq!(ascii_camel_or_pascal_to_snake_case(""), "");
}

#[test]
fn pascal_case_of_snake() {
    assert_eq!(ascii_snake_to_pascal_case("extra_wasm"), "ExtraWasm");
    assert_eq!(ascii_snake_to_pascal_case("a_b"), "Ab");
    assert_eq!(ascii_snake_to_pascal_case("multi_test_a"), "MultiTestA");
    assert_eq!(ascii_snake_to_pascal_case("x"), "X");
}

#[test]
fn snake_case_laws_on_examples() {
    for s in ["ExtraWasm", "getBigCallPtr", "HTTPServer", "a_b_C", "x"] {
        let once = ascii_camel_or_pascal_to_snake_case(s);
        assert_eq!(ascii_camel_or_pascal_to_snake_case(&once), once);
        assert_eq!(once.replace('_', ""), s.to_ascii_lowercase().replace('_', ""));
    }
    assert_eq!(ascii_camel_or_pascal_to_snake_case("no_upper_here9"), "no_upper_here9");
}
