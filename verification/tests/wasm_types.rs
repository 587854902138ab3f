use hydrozoa::module::{
    link_closure_outcome, link_closure_request, link_function_request, name_text, LinkError,
};
use hydrozoa::wasm_types::{
    pop_args, push_args, WasmValue,
    function_signature, validate_types, WasmType, WasmValueType, M3_TYPE_F32, M3_TYPE_F64,
    M3_TYPE_I32, M3_TYPE_I64,
};

#[test]
fn test_validate_types_single() {
    assert!(validate_types(&[WasmValueType::F64], &[M3_TYPE_F64]));
}

#[test]
fn test_validate_types_single_fail() {
    assert!(!validate_types(&[WasmValueType::F32], &[M3_TYPE_F64]));
}

#[test]
fn test_validate_types_double() {
    assert!(validate_types(
        &[WasmValueType::F64, WasmValueType::U32],
        &[M3_TYPE_F64, M3_TYPE_I32]
    ));
}

#[test]
fn test_validate_types_double_fail() {
    assert!(!validate_types(
        &[WasmValueType::F32, WasmValueType::U64],
        &[M3_TYPE_I64, M3_TYPE_F32]
    ));
}

#[test]
fn test_validate_types_quintuple() {
    assert!(validate_types(
        &[
            WasmValueType::F64,
            WasmValueType::U32,
            WasmValueType::I32,
            WasmValueType::I64,
            WasmValueType::F32
        ],
        &[M3_TYPE_F64, M3_TYPE_I32, M3_TYPE_I32, M3_TYPE_I64, M3_TYPE_F32]
    ));
}

#[test]
fn test_validate_types_quintuple_fail() {
    assert!(!validate_types(
        &[
            WasmValueType::F64,
            WasmValueType::U32,
            WasmValueType::I32,
            WasmValueType::I64,
            WasmValueType::F32
        ],
        &[M3_TYPE_I32, M3_TYPE_I64, M3_TYPE_I32, M3_TYPE_F32, M3_TYPE_F64]
    ));
}

#[test]
fn validate_types_rejects_wrong_count() {
    assert!(!validate_types(&[WasmValueType::I32], &[]));
    assert!(!validate_types(&[], &[M3_TYPE_I32]));
    assert!(validate_types(&[], &[]));
}

#[test]
fn test_link_functions() {
    let req = link_function_request(
        "env",
        "mul_u32_and_f32",
        &[WasmValueType::U32, WasmValueType::F32],
        WasmValueType::F64,
    )
    .unwrap();
    assert_eq!(req.module_name, b"env\0".to_vec());
    assert_eq!(req.function_name, b"mul_u32_and_f32\0".to_vec());
    assert_eq!(req.signature, b"F(if)\0".to_vec());
    let req = link_function_request("env", "hello", &[], WasmValueType::Unit).unwrap();
    assert_eq!(req.signature, b"v()\0".to_vec());
}

#[test]
fn test_link_closures() {
    let req = link_closure_request(
        "env",
        "mul_u32_and_f32",
        &[WasmValueType::U32, WasmValueType::F32],
        WasmValueType::F64,
    )
    .unwrap();
    assert_eq!(req.signature, b"F(if)\0".to_vec());
    assert!(link_closure_outcome("mul_u32_and_f32", Ok(())).is_ok());
    let req = link_closure_request("env", "hello", &[], WasmValueType::Unit).unwrap();
    assert_eq!(req.signature, b"v()\0".to_vec());
    assert!(link_closure_outcome("hello", Ok(())).is_ok());
}

#[test]
fn link_rejects_names_with_nul() {
    assert_eq!(
        link_function_request("e\0nv", "f", &[], WasmValueType::Unit).unwrap_err(),
        LinkError::NulInName
    );
    let err = link_closure_request("env", "f\0", &[], WasmValueType::Unit).unwrap_err();
    assert_eq!(err.source, LinkError::NulInName);
    assert_eq!(err.name, "f\0");
}

#[test]
fn link_closure_reports_missing_import() {
    let missing = link_closure_outcome("hello", Err(LinkError::FunctionNotFound)).unwrap_err();
    assert_eq!(missing.source, LinkError::FunctionNotFound);
    assert_eq!(missing.name, "hello");
    let err = link_closure_outcome("hello", Err(LinkError::Runtime("signature mismatch".to_string())))
        .unwrap_err();
    assert_eq!(err.name, "hello");
    assert_eq!(err.source, LinkError::Runtime("signature mismatch".to_string()));
}

#[test]
fn signature_of_all_kinds() {
    let sig = function_signature(
        &[
            WasmValueType::I32,
            WasmValueType::Bool,
            WasmValueType::I64,
            WasmValueType::U64,
            WasmValueType::F32,
        ],
        WasmValueType::I32,
    );
    assert_eq!(sig, b"i(iiIIf)\0".to_vec());
}

#[test]
fn slot_roundtrips() {
    let slot: u64 = 0xDEAD_BEEF_0000_0000;
    let written = (-5i32).push_on_slot(slot);
    assert_eq!(written, 0xDEAD_BEEF_FFFF_FFFB);
    assert_eq!(i32::pop_from_slot(written), -5);
    assert_eq!(u32::pop_from_slot(7u32.push_on_slot(u64::MAX)), 7);
    assert!(bool::pop_from_slot(true.push_on_slot(0)));
    assert_eq!(true.push_on_slot(0xFFFF_FFFF_0000_0000), 0xFFFF_FFFF_0000_0001);
    assert_eq!(i64::pop_from_slot((-1i64).push_on_slot(0)), -1);
    assert_eq!(u64::pop_from_slot(42u64.push_on_slot(9)), 42);
    assert_eq!(<i32 as WasmType>::value_type(), WasmValueType::I32);
}

#[test]
fn module_names() {
    assert_eq!(name_text(b"env\0junk"), Some("env".to_string()));
    assert_eq!(name_text(b"\0"), Some(String::new()));
    assert_eq!(name_text(b"caf\xc3\xa9\0\xff"), Some("café".to_string()));
    assert_eq!(name_text(b"\xff\0"), None);
}

#[test]
fn argument_lists_round_trip() {
    let values = vec![
        WasmValue::I32(-5),
        WasmValue::U32(7),
        WasmValue::Bool(true),
        WasmValue::I64(-1),
        WasmValue::U64(u64::MAX - 3),
    ];
    let mut stack = vec![0xAAAA_AAAA_AAAA_AAAAu64; 8];
    push_args(&values, &mut stack, 2);
    assert_eq!(stack[0], 0xAAAA_AAAA_AAAA_AAAA);
    assert_eq!(stack[1], 0xAAAA_AAAA_AAAA_AAAA);
    assert_eq!(stack[2], 0xAAAA_AAAA_FFFF_FFFB);
    assert_eq!(stack[3], 0xAAAA_AAAA_0000_0007);
    assert_eq!(stack[4], 0xAAAA_AAAA_0000_0001);
    assert_eq!(stack[5], u64::MAX);
    assert_eq!(stack[7], 0xAAAA_AAAA_AAAA_AAAA);
    let types = [
        WasmValueType::I32,
        WasmValueType::U32,
        WasmValueType::Bool,
        WasmValueType::I64,
        WasmValueType::U64,
    ];
    assert_eq!(pop_args(&types, &stack, 2), values);
}
