use hydrozoa::module::c_string_bytes;
use hydrozoa::sdk_api::{
    enum_value, get_type_name, parse_enum_value, unraw_ident, DescribeError, Diagnostic, FnArgShape, Place, LinkCall, LinkEnum, LinkFunc, LinkItem,
    LinkItemArg, LinkItemReturnType, PatShape, SdkEnum, SdkItem, SdkItemParam, SdkModule, SdkType,
    TypeShape,
};
use hydrozoa::teavm::{
    get_cstring, get_string, java_cstring_from_cast, java_string_from_cast, java_string_from_units,
    java_string_units, teavm_output_text,
};

fn path(segs: &[&str]) -> TypeShape {
    TypeShape::Path(segs.iter().map(|s| s.to_string()).collect())
}

fn arg(name: &str, ty: TypeShape, wrapper: Option<TypeShape>) -> LinkItemArg {
    LinkItemArg { fn_arg: FnArgShape::Typed(PatShape::Ident(name.to_string()), ty), wrapper }
}

fn kind(t: &SdkType) -> String {
    match t {
        SdkType::Bool => "Bool".into(),
        SdkType::Int => "Int".into(),
        SdkType::Long => "Long".into(),
        SdkType::Float => "Float".into(),
        SdkType::Double => "Double".into(),
        SdkType::StringPtr => "StringPtr".into(),
        SdkType::Named { name } => format!("Named({name})"),
    }
}

#[test]
fn type_names_join_segments() {
    assert_eq!(get_type_name(&path(&["core", "ffi", "c_double"])), Ok("core::ffi::c_double".to_string()));
    assert_eq!(get_type_name(&path(&["u32"])), Ok("u32".to_string()));
    assert_eq!(get_type_name(&TypeShape::Other), Err(DescribeError::NotAPath));
}

#[test]
fn sdk_types_from_names() {
    let cases = [
        ("bool", Some("Bool")),
        ("i32", Some("Int")),
        ("u32", Some("Int")),
        ("c_uchar", Some("Int")),
        ("usize", Some("Int")),
        ("i64", Some("Long")),
        ("u64", Some("Long")),
        ("f32", Some("Float")),
        ("c_float", Some("Float")),
        ("f64", Some("Double")),
        ("c_double", Some("Double")),
        ("CStr", Some("StringPtr")),
        ("String", None),
    ];
    for (name, expected) in cases {
        assert_eq!(SdkType::from_type(&path(&[name])).ok().map(|t| kind(&t)), expected.map(|s| s.to_string()));
    }
    assert_eq!(SdkType::from_type(&path(&["String"])).unwrap_err(), DescribeError::UnsupportedType);
    // a qualified path is looked up by its full name
    assert_eq!(
        SdkType::from_type(&path(&["core", "ffi", "c_double"])).unwrap_err(),
        DescribeError::UnsupportedType
    );
    assert_eq!(SdkType::from_type(&TypeShape::Other).unwrap_err(), DescribeError::NotAPath);
}

#[test]
fn unraw_strips_prefix() {
    assert_eq!(unraw_ident("r#type"), "type");
    assert_eq!(unraw_ident("name"), "name");
    assert_eq!(unraw_ident("r"), "r");
}

#[test]
fn params_describe_types() {
    let p = SdkItemParam::new(&arg("r#port", path(&["u32"]), None)).unwrap();
    assert_eq!(p.name, "port");
    assert_eq!(kind(&p.ty), "Int");
    let p = SdkItemParam::new(&arg("id", path(&["i32"]), Some(path(&["ControllerId"])))).unwrap();
    assert_eq!(kind(&p.ty), "Named(ControllerId)");
    assert_eq!(
        SdkItemParam::new(&LinkItemArg { fn_arg: FnArgShape::Receiver, wrapper: None }).unwrap_err(),
        DescribeError::SelfParameter
    );
    assert_eq!(
        SdkItemParam::new(&LinkItemArg {
            fn_arg: FnArgShape::Typed(PatShape::Other, path(&["u32"])),
            wrapper: None
        })
        .unwrap_err(),
        DescribeError::Destructuring
    );
    assert_eq!(SdkItemParam::new(&arg("x", TypeShape::Other, None)).unwrap_err(), DescribeError::NotAPath);
    assert_eq!(
        SdkItemParam::new(&arg("x", path(&["u32"]), Some(TypeShape::Other))).unwrap_err(),
        DescribeError::NotAPath
    );
    assert_eq!(
        SdkItemParam::new(&arg("x", path(&["u8"]), None)).unwrap_err(),
        DescribeError::UnsupportedType
    );
}

#[test]
fn return_types() {
    let r = SdkType::from_return_type(&LinkItemReturnType::Default);
    assert!(matches!(r.ret, Some(None)));
    assert_eq!(r.error, None);
    let r = SdkType::from_return_type(&LinkItemReturnType::Type { return_type: path(&["u64"]), wrapper: None });
    assert_eq!(r.ret.unwrap().map(|t| kind(&t)), Some("Long".to_string()));
    assert_eq!(r.error, None);
    // an unsupported return type is described as no return value, and reported
    let r = SdkType::from_return_type(&LinkItemReturnType::Type { return_type: path(&["String"]), wrapper: None });
    assert!(matches!(r.ret, Some(None)));
    assert_eq!(r.error, Some(DescribeError::UnsupportedType));
    // a conversion that is not a path has no description
    let r = SdkType::from_return_type(&LinkItemReturnType::Type {
        return_type: path(&["i32"]),
        wrapper: Some(TypeShape::Other),
    });
    assert!(r.ret.is_none());
    assert_eq!(r.error, Some(DescribeError::NotAPath));
    let r = SdkType::from_return_type(&LinkItemReturnType::Type {
        return_type: path(&["i32"]),
        wrapper: Some(path(&["V5_DeviceT"])),
    });
    assert_eq!(r.ret.unwrap().map(|t| kind(&t)), Some("Named(V5_DeviceT)".to_string()));
}

fn printf_func() -> LinkFunc {
    LinkFunc {
        printfness: true,
        ident: "vexDisplayPrintf".to_string(),
        inputs: vec![arg("xpos", path(&["i32"]), None), arg("ypos", path(&["i32"]), None)],
        output: LinkItemReturnType::Default,
    }
}

#[test]
fn items_describe_functions() {
    let (item, reported) = SdkItem::new(&printf_func());
    let item = item.unwrap();
    assert!(reported.is_empty());
    assert_eq!(item.name, "vexDisplayPrintf");
    let names: Vec<&str> = item.params.iter().map(|p| p.name.as_str()).collect();
    assert_eq!(names, vec!["xpos", "ypos", "string"]);
    assert_eq!(kind(&item.params[2].ty), "StringPtr");
    assert!(item.ret.is_none());

    let bad = LinkFunc { inputs: vec![arg("s", path(&["String"]), None)], ..printf_func() };
    let (item, reported) = SdkItem::new(&bad);
    assert!(item.is_none());
    assert_eq!(reported, vec![Diagnostic { place: Place::Param(0), error: DescribeError::UnsupportedType }]);
    // every parameter without a description is reported, in order
    let bad = LinkFunc {
        inputs: vec![
            LinkItemArg { fn_arg: FnArgShape::Receiver, wrapper: None },
            arg("ok", path(&["u32"]), None),
            arg("p", TypeShape::Other, None),
        ],
        output: LinkItemReturnType::Type { return_type: path(&["String"]), wrapper: None },
        ..printf_func()
    };
    let (item, reported) = SdkItem::new(&bad);
    assert!(item.is_none());
    assert_eq!(
        reported,
        vec![
            Diagnostic { place: Place::Param(0), error: DescribeError::SelfParameter },
            Diagnostic { place: Place::Param(2), error: DescribeError::NotAPath },
        ]
    );
    // the return type is reported only when every parameter has a description;
    // an unsupported one is described as no return value
    let bad = LinkFunc {
        output: LinkItemReturnType::Type { return_type: path(&["String"]), wrapper: None },
        ..printf_func()
    };
    let (item, reported) = SdkItem::new(&bad);
    assert!(item.unwrap().ret.is_none());
    assert_eq!(reported, vec![Diagnostic { place: Place::Return, error: DescribeError::UnsupportedType }]);
    // a return conversion that is not a path leaves no description
    let bad = LinkFunc {
        output: LinkItemReturnType::Type { return_type: path(&["u32"]), wrapper: Some(TypeShape::Other) },
        ..printf_func()
    };
    let (item, reported) = SdkItem::new(&bad);
    assert!(item.is_none());
    assert_eq!(reported, vec![Diagnostic { place: Place::Return, error: DescribeError::NotAPath }]);
}

#[test]
fn enum_values_parse() {
    assert_eq!(parse_enum_value("42"), Some(42));
    assert_eq!(parse_enum_value("0"), Some(0));
    assert_eq!(parse_enum_value("-7"), Some(-7));
    assert_eq!(parse_enum_value("+7"), Some(7));
    assert_eq!(parse_enum_value("9223372036854775807"), Some(i64::MAX));
    assert_eq!(parse_enum_value("9223372036854775808"), None);
    assert_eq!(parse_enum_value("-9223372036854775808"), Some(i64::MIN));
    assert_eq!(parse_enum_value(""), None);
    assert_eq!(parse_enum_value("-"), None);
    assert_eq!(parse_enum_value("1x"), None);
    for s in ["123", "-5", "+0", "abc", "99999999999999999999"] {
        assert_eq!(parse_enum_value(s), s.parse::<i64>().ok());
    }
}

#[test]
fn enum_values_from_literals() {
    assert_eq!(enum_value("42"), Some(42));
    assert_eq!(enum_value("1_000"), Some(1000));
    assert_eq!(enum_value("0x10"), Some(16));
    assert_eq!(enum_value("0b101"), Some(5));
    assert_eq!(enum_value("0o17"), Some(15));
    assert_eq!(enum_value("5u8"), Some(5));
    assert_eq!(enum_value("300u8"), Some(300));
    assert_eq!(enum_value("-7"), Some(-7));
    assert_eq!(enum_value("9223372036854775807"), Some(i64::MAX));
    assert_eq!(enum_value("9223372036854775808"), None);
    assert_eq!(enum_value("1.5"), None);
    assert_eq!(enum_value("abc"), None);
    let e = LinkEnum {
        name: "Flags".to_string(),
        underlying_type: path(&["u32"]),
        variants: vec![("A".to_string(), "0x1_0".to_string())],
    };
    assert_eq!(SdkEnum::new(&e).unwrap().variants, vec![("A".to_string(), 16)]);
}

fn port_enum() -> LinkEnum {
    LinkEnum {
        name: "V5_DeviceType".to_string(),
        underlying_type: path(&["u32"]),
        variants: vec![("kDeviceTypeNoSensor".to_string(), "0".to_string()), ("r#kDeviceTypeMotorSensor".to_string(), "2".to_string())],
    }
}

#[test]
fn enums_describe_variants() {
    let e = SdkEnum::new(&port_enum()).unwrap();
    assert_eq!(e.name, "V5_DeviceType");
    assert_eq!(kind(&e.underlying_type), "Int");
    assert_eq!(e.variants, vec![("kDeviceTypeNoSensor".to_string(), 0), ("kDeviceTypeMotorSensor".to_string(), 2)]);
    let mut bad = port_enum();
    bad.variants.push(("kBig".to_string(), "9223372036854775808".to_string()));
    bad.variants.push(("kWorse".to_string(), "x".to_string()));
    assert_eq!(
        SdkEnum::new(&bad).unwrap_err(),
        Diagnostic { place: Place::Variant(2), error: DescribeError::BadEnumValue }
    );
    let mut bad = port_enum();
    bad.underlying_type = path(&["String"]);
    assert_eq!(
        SdkEnum::new(&bad).unwrap_err(),
        Diagnostic { place: Place::UnderlyingType, error: DescribeError::UnsupportedType }
    );
}

#[test]
fn modules_collect_functions_and_enums() {
    let call = LinkCall {
        module_name: "vex".to_string(),
        module_items: vec![LinkItem::Func(printf_func()), LinkItem::Enum(port_enum())],
    };
    let (m, reported) = SdkModule::new(&call);
    let m = m.unwrap();
    assert!(reported.is_empty());
    assert_eq!(m.name, "vex");
    assert_eq!(m.items.len(), 1);
    assert_eq!(m.enums.len(), 1);
    assert_eq!(m.items[0].name, "vexDisplayPrintf");
    let bad = LinkCall { module_name: "vex".to_string(), module_items: vec![LinkItem::Func(LinkFunc { inputs: vec![LinkItemArg { fn_arg: FnArgShape::Receiver, wrapper: None }], ..printf_func() })] };
    let (m, reported) = SdkModule::new(&bad);
    assert!(m.is_none());
    assert_eq!(reported, vec![(0, Diagnostic { place: Place::Param(0), error: DescribeError::SelfParameter })]);
    // functions are described before enums
    let mut bad_enum = port_enum();
    bad_enum.underlying_type = TypeShape::Other;
    let call = LinkCall {
        module_name: "vex".to_string(),
        module_items: vec![
            LinkItem::Enum(bad_enum),
            LinkItem::Func(LinkFunc {
                output: LinkItemReturnType::Type { return_type: path(&["String"]), wrapper: None },
                ..printf_func()
            }),
            LinkItem::Func(LinkFunc { inputs: vec![arg("s", path(&["String"]), None)], ..printf_func() }),
        ],
    };
    let (m, reported) = SdkModule::new(&call);
    assert!(m.is_none());
    assert_eq!(
        reported,
        vec![
            (1, Diagnostic { place: Place::Return, error: DescribeError::UnsupportedType }),
            (2, Diagnostic { place: Place::Param(0), error: DescribeError::UnsupportedType }),
        ]
    );
    let call = LinkCall { module_items: vec![call.module_items.into_iter().next().unwrap()], ..call };
    let (m, reported) = SdkModule::new(&call);
    assert!(m.is_none());
    assert_eq!(reported, vec![(0, Diagnostic { place: Place::UnderlyingType, error: DescribeError::NotAPath })]);
}

#[test]
fn c_strings() {
    assert_eq!(c_string_bytes("env"), Some(b"env\0".to_vec()));
    assert_eq!(c_string_bytes(""), Some(b"\0".to_vec()));
    assert_eq!(c_string_bytes("a\0b"), None);
}

#[test]
fn utf16_decoding() {
    let units: Vec<u16> = "héllo 😀".encode_utf16().collect();
    assert_eq!(java_string_from_units(&units), "héllo 😀");
    assert_eq!(java_string_from_units(&[0x61, 0xD800, 0x62]), "a\u{FFFD}b");
    assert_eq!(java_string_from_units(&[0xDC00]), "\u{FFFD}");
}

fn memory_with(units: &[u16], offset: usize) -> Vec<u16> {
    let mut mem = vec![0u16; offset / 2];
    mem.extend_from_slice(units);
    mem
}

fn as_bytes(words: &[u16]) -> Vec<u8> {
    words.iter().flat_map(|w| w.to_ne_bytes()).collect()
}

#[test]
fn strings_from_memory() {
    let words = memory_with(&"Hi!".encode_utf16().collect::<Vec<_>>(), 4);
    let bytes = as_bytes(&words);
    // the bytes of a Vec<u16> copy are copied into a fresh buffer, so read through an aligned view
    let aligned: Vec<u16> = words.clone();
    let view: &[u8] = bytemuck::cast_slice(&aligned);
    assert_eq!(view, &bytes[..]);
    assert_eq!(get_string(view, 4, 3), Some("Hi!".to_string()));
    assert_eq!(get_cstring(view, 4, 3), Some(b"Hi!\0".to_vec()));
    assert_eq!(get_string(view, 4, 0), Some(String::new()));
    let with_nul = memory_with(&[0x41, 0, 0x42], 0);
    let view: &[u8] = bytemuck::cast_slice(&with_nul);
    assert_eq!(get_string(view, 0, 3), Some("A\0B".to_string()));
}

#[test]
fn java_argument_units() {
    assert_eq!(java_string_units("ab"), vec![0x61, 0x62]);
    assert_eq!(java_string_units(""), Vec::<u16>::new());
    assert_eq!(java_string_units("é"), vec![0xE9]);
    assert_eq!(java_string_units("😀"), vec![0xD83D, 0xDE00]);
    let text = "héllo 😀 wörld";
    let units = java_string_units(text);
    assert_eq!(units, text.encode_utf16().collect::<Vec<u16>>());
    assert_eq!(java_string_from_units(&units), text);
}

#[test]
fn printed_output_text() {
    let memory = b"xxhello\xffyy".to_vec();
    assert_eq!(teavm_output_text(&memory, 2, 5), Some("hello".to_string()));
    assert_eq!(teavm_output_text(&memory, 0, 0), Some(String::new()));
    assert_eq!(teavm_output_text(&memory, 2, 6), None);
    let accented = "é".as_bytes().to_vec();
    assert_eq!(teavm_output_text(&accented, 0, 2), Some("é".to_string()));
    assert_eq!(teavm_output_text(&accented, 0, 1), None);
}

#[test]
fn strings_from_read_units() {
    let units: Vec<u16> = "Hé😀".encode_utf16().collect();
    assert_eq!(java_string_from_cast(Some(units.clone())), Some("Hé😀".to_string()));
    assert_eq!(java_string_from_cast(Some(vec![0xD800])), Some("\u{FFFD}".to_string()));
    assert_eq!(java_string_from_cast(None), None);
    assert_eq!(java_cstring_from_cast(Some(units)), Some("Hé😀\0".as_bytes().to_vec()));
    assert_eq!(java_cstring_from_cast(Some(vec![0x41, 0, 0x42])), None);
    assert_eq!(java_cstring_from_cast(Some(vec![])), Some(vec![0]));
    assert_eq!(java_cstring_from_cast(None), None);
}
