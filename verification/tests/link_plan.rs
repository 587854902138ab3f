use hydrozoa::link_plan::{link_plans, ClosurePlan};
use hydrozoa::sdk_api::{
    FnArgShape, LinkCall, LinkEnum, LinkFunc, LinkItem, LinkItemArg, LinkItemReturnType, PatShape,
    SdkItem, TypeShape,
};

fn path_type(segs: &[&str]) -> TypeShape {
    TypeShape::Path(segs.iter().map(|s| s.to_string()).collect())
}

fn name_of(t: &TypeShape) -> String {
    match t {
        TypeShape::Path(segs) => segs.join("::"),
        TypeShape::Other => "?".to_string(),
    }
}

fn pat_name(p: &PatShape) -> String {
    match p {
        PatShape::Ident(n) => n.clone(),
        PatShape::Other => "?".to_string(),
    }
}

fn typed(name: &str, ty: &str, wrapper: Option<&str>) -> LinkItemArg {
    LinkItemArg {
        fn_arg: FnArgShape::Typed(PatShape::Ident(name.to_string()), path_type(&[ty])),
        wrapper: wrapper.map(|w| path_type(&[w])),
    }
}

#[test]
fn plain_function_closure() {
    let f = LinkFunc {
        printfness: false,
        ident: "vexDeviceGetByIndex".to_string(),
        inputs: vec![typed("index", "u32", None)],
        output: LinkItemReturnType::Type { return_type: path_type(&["u32"]), wrapper: None },
    };
    let plan = ClosurePlan::new(f);
    assert_eq!(plan.name, "vexDeviceGetByIndex");
    assert_eq!(plan.args.iter().map(pat_name).collect::<Vec<_>>(), vec!["index"]);
    assert_eq!(plan.types.iter().map(name_of).collect::<Vec<_>>(), vec!["u32"]);
    assert!(plan.arg_wrappers[0].is_none());
    assert!(!plan.printf);
    assert_eq!(plan.return_type.as_ref().map(name_of), Some("u32".to_string()));
    assert!(plan.return_wrapper.is_none());
}

#[test]
fn printf_closure_takes_format_string() {
    let f = LinkFunc {
        printfness: true,
        ident: "vexDisplayPrintf".to_string(),
        inputs: vec![typed("x", "i32", None), typed("port", "u32", Some("V5_DeviceT"))],
        output: LinkItemReturnType::Default,
    };
    let plan = ClosurePlan::new(f);
    assert_eq!(plan.args.iter().map(pat_name).collect::<Vec<_>>(), vec!["x", "port"]);
    assert_eq!(plan.types.iter().map(name_of).collect::<Vec<_>>(), vec!["i32", "u32", "i32"]);
    assert_eq!(
        plan.arg_wrappers.iter().map(|w| w.as_ref().map(name_of)).collect::<Vec<_>>(),
        vec![None, Some("V5_DeviceT".to_string())]
    );
    assert!(plan.printf);
    assert!(plan.return_type.is_none());
    assert!(plan.return_wrapper.is_none());
}

#[test]
fn return_wrapper_is_kept() {
    let f = LinkFunc {
        printfness: false,
        ident: "r#type".to_string(),
        inputs: vec![],
        output: LinkItemReturnType::Type {
            return_type: path_type(&["i32"]),
            wrapper: Some(path_type(&["Status"])),
        },
    };
    let plan = ClosurePlan::new(f.clone());
    assert_eq!(plan.name, "r#type");
    assert!(plan.types.is_empty());
    assert_eq!(plan.return_wrapper.as_ref().map(name_of), Some("Status".to_string()));
    let described = SdkItem::new(&f).0.unwrap();
    assert_eq!(described.name, "type");
    assert_eq!(described.params.len(), plan.types.len());
}

#[test]
fn plans_follow_functions_in_order() {
    let call = LinkCall {
        module_name: "vex".to_string(),
        module_items: vec![
            LinkItem::Func(LinkFunc {
                printfness: false,
                ident: "first".to_string(),
                inputs: vec![],
                output: LinkItemReturnType::Default,
            }),
            LinkItem::Enum(LinkEnum {
                name: "Port".to_string(),
                underlying_type: path_type(&["u32"]),
                variants: vec![("A".to_string(), "1".to_string())],
            }),
            LinkItem::Func(LinkFunc {
                printfness: true,
                ident: "second".to_string(),
                inputs: vec![typed("a", "i64", None)],
                output: LinkItemReturnType::Default,
            }),
        ],
    };
    let plans = link_plans(call);
    assert_eq!(plans.len(), 2);
    assert_eq!(plans[0].name, "first");
    assert_eq!(plans[1].name, "second");
    assert_eq!(plans[1].types.iter().map(name_of).collect::<Vec<_>>(), vec!["i64", "i32"]);
}
