use hydrozoa::link_plan::link_plans;
use hydrozoa::link_syntax::{parse_args, parse_link_call, Delimiter, TokenTree};
use hydrozoa::sdk_api::{FnArgShape, LinkItem, LinkItemReturnType, PatShape, SdkModule, TypeShape};

fn id(s: &str) -> TokenTree {
    TokenTree::Ident(s.to_string())
}

fn p(c: char) -> TokenTree {
    TokenTree::Punct(c, false)
}

fn pj(c: char) -> TokenTree {
    TokenTree::Punct(c, true)
}

fn group(d: Delimiter, inner: Vec<TokenTree>) -> TokenTree {
    TokenTree::Group(d, inner)
}

fn arrow() -> Vec<TokenTree> {
    vec![pj('-'), p('>')]
}

fn call(items: Vec<TokenTree>) -> Vec<TokenTree> {
    vec![
        id("instance"),
        p(','),
        id("store"),
        p(','),
        id("mod"),
        TokenTree::Str("module_name".to_string()),
        group(Delimiter::Brace, items),
    ]
}

fn shape_text(t: &TypeShape) -> String {
    match t {
        TypeShape::Path(s) => s.join("::"),
        TypeShape::Other => "?".to_string(),
    }
}

#[test]
fn function_returning_i32() {
    // fn my_func() -> i32;
    let mut items = vec![id("fn"), id("my_func"), group(Delimiter::Parenthesis, vec![])];
    items.extend(arrow());
    items.extend(vec![id("i32"), p(';')]);
    let tokens = call(items);
    let (syntax, parsed) = parse_link_call(&tokens).unwrap();
    assert_eq!(syntax.instance.start, 0);
    assert_eq!(syntax.instance.end, 1);
    assert_eq!(syntax.store.start, 2);
    assert_eq!(syntax.store.end, 3);
    assert_eq!(parsed.module_name, "module_name");
    assert_eq!(parsed.module_items.len(), 1);
    match &parsed.module_items[0] {
        LinkItem::Func(f) => {
            assert!(!f.printfness);
            assert_eq!(f.ident, "my_func");
            assert!(f.inputs.is_empty());
            match &f.output {
                LinkItemReturnType::Type { return_type, wrapper } => {
                    assert_eq!(shape_text(return_type), "i32");
                    assert!(wrapper.is_none());
                }
                LinkItemReturnType::Default => panic!("return type lost"),
            }
        }
        LinkItem::Enum(_) => panic!("not a function"),
    }
}

#[test]
fn parameter_wrappers() {
    // fn my_func_raw(a: i32); fn my_func(a: i32 as ControllerId); fn my_func(a: i32 as |x| ControllerId(x));
    let closure = vec![
        p('|'),
        id("x"),
        p('|'),
        id("ControllerId"),
        group(Delimiter::Parenthesis, vec![id("x")]),
    ];
    let mut third = vec![id("a"), p(':'), id("i32"), id("as")];
    third.extend(closure);
    let items = vec![
        id("fn"),
        id("my_func_raw"),
        group(Delimiter::Parenthesis, vec![id("a"), p(':'), id("i32")]),
        p(';'),
        id("fn"),
        id("my_func"),
        group(
            Delimiter::Parenthesis,
            vec![id("a"), p(':'), id("i32"), id("as"), id("ControllerId")],
        ),
        p(';'),
        id("fn"),
        id("my_func"),
        group(Delimiter::Parenthesis, third),
        p(';'),
    ];
    let (syntax, parsed) = parse_link_call(&call(items)).unwrap();
    assert_eq!(syntax.items.len(), 3);
    let funcs: Vec<_> = parsed
        .module_items
        .iter()
        .map(|i| match i {
            LinkItem::Func(f) => f.clone(),
            LinkItem::Enum(_) => panic!("not a function"),
        })
        .collect();
    assert!(funcs[0].inputs[0].wrapper.is_none());
    match &funcs[0].inputs[0].fn_arg {
        FnArgShape::Typed(PatShape::Ident(n), t) => {
            assert_eq!(n, "a");
            assert_eq!(shape_text(t), "i32");
        }
        _ => panic!("expected a typed parameter"),
    }
    assert_eq!(funcs[1].inputs[0].wrapper.as_ref().map(shape_text), Some("ControllerId".to_string()));
    assert_eq!(funcs[2].inputs[0].wrapper.as_ref().map(shape_text), Some("?".to_string()));
    let wrapper_span = syntax.items[2].args[0].wrapper.unwrap();
    assert_eq!((wrapper_span.start, wrapper_span.end), (4, 9));
}

#[test]
fn return_wrapper_and_printf() {
    // fn my_func() -> i32 as |id| id.0;  printf fn vexDisplayPrintf(x: i32, y: i32);
    let mut items = vec![id("fn"), id("my_func"), group(Delimiter::Parenthesis, vec![])];
    items.extend(arrow());
    items.extend(vec![
        id("i32"),
        id("as"),
        p('|'),
        id("id"),
        p('|'),
        id("id"),
        p('.'),
        TokenTree::Literal("0".to_string()),
        p(';'),
        id("printf"),
        id("fn"),
        id("vexDisplayPrintf"),
        group(
            Delimiter::Parenthesis,
            vec![id("x"), p(':'), id("i32"), p(','), id("y"), p(':'), id("i32"), p(',')],
        ),
        p(';'),
    ]);
    let (syntax, parsed) = parse_link_call(&call(items)).unwrap();
    let ret = syntax.items[0].ret.unwrap();
    assert_eq!((ret.ty.start, ret.ty.end), (5, 6));
    let w = ret.wrapper.unwrap();
    assert_eq!((w.start, w.end), (7, 13));
    assert!(syntax.items[1].printf);
    assert_eq!(syntax.items[1].args.len(), 2);
    let plans = link_plans(parsed);
    assert_eq!(plans.len(), 2);
    assert!(plans[0].return_wrapper.is_some());
    assert!(plans[1].printf);
    assert_eq!(plans[1].types.len(), 3);
}

#[test]
fn description_from_tokens() {
    let items = vec![
        id("fn"),
        id("vexDeviceGetByIndex"),
        group(Delimiter::Parenthesis, vec![id("index"), p(':'), id("u32")]),
        p(';'),
    ];
    let (_, parsed) = parse_link_call(&call(items)).unwrap();
    let module = SdkModule::new(&parsed).0.unwrap();
    assert_eq!(module.name, "module_name");
    assert_eq!(module.items[0].name, "vexDeviceGetByIndex");
    assert_eq!(module.items[0].params[0].name, "index");
    assert!(module.items[0].ret.is_none());
}

#[test]
fn self_and_patterns() {
    let args = vec![
        pj('&'),
        id("self"),
        p(','),
        id("mut"),
        id("count"),
        p(':'),
        id("u32"),
        p(','),
        group(Delimiter::Parenthesis, vec![id("a"), p(','), id("b")]),
        p(':'),
        id("Pair"),
    ];
    let (parsed, variadic) = parse_args(&args).unwrap();
    assert!(!variadic);
    assert_eq!(parsed.len(), 3);
    assert!(parsed[0].receiver);
    assert!(parsed[0].ty.is_none());
    assert!(!parsed[1].receiver);
    let items = vec![id("fn"), id("f"), group(Delimiter::Parenthesis, args), p(';')];
    let (_, call_model) = parse_link_call(&call(items)).unwrap();
    match &call_model.module_items[0] {
        LinkItem::Func(f) => {
            assert!(matches!(f.inputs[0].fn_arg, FnArgShape::Receiver));
            assert!(matches!(&f.inputs[1].fn_arg, FnArgShape::Typed(PatShape::Ident(n), _) if n == "count"));
            assert!(matches!(f.inputs[2].fn_arg, FnArgShape::Typed(PatShape::Other, _)));
        }
        LinkItem::Enum(_) => panic!("not a function"),
    }
}

fn variadic_args() -> Vec<TokenTree> {
    vec![
        id("fmt"),
        p(':'),
        id("core"),
        pj(':'),
        p(':'),
        id("ffi"),
        pj(':'),
        p(':'),
        id("CStr"),
        p(','),
        pj('.'),
        pj('.'),
        p('.'),
    ]
}

#[test]
fn variadic_and_paths() {
    let args = variadic_args();
    let (parsed, variadic) = parse_args(&args).unwrap();
    assert!(variadic);
    assert_eq!(parsed.len(), 1);
    let ty = parsed[0].ty.unwrap();
    assert_eq!((ty.start, ty.end), (2, 9));
    let mut trailing = variadic_args();
    trailing.push(id("x"));
    assert!(parse_args(&trailing).is_none());
}

#[test]
fn rejected_inputs() {
    // a keyword as the function name
    let items = vec![id("fn"), id("match"), group(Delimiter::Parenthesis, vec![]), p(';')];
    assert!(parse_link_call(&call(items)).is_none());
    // a missing semicolon
    let items = vec![id("fn"), id("f"), group(Delimiter::Parenthesis, vec![])];
    assert!(parse_link_call(&call(items)).is_none());
    // a parameter without a type
    let items = vec![id("fn"), id("f"), group(Delimiter::Parenthesis, vec![id("a")]), p(';')];
    assert!(parse_link_call(&call(items)).is_none());
    // an empty return type
    let mut items = vec![id("fn"), id("f"), group(Delimiter::Parenthesis, vec![])];
    items.extend(arrow());
    items.push(p(';'));
    assert!(parse_link_call(&call(items)).is_none());
    // trailing tokens after the module body
    let mut tokens = call(vec![]);
    tokens.push(p(';'));
    assert!(parse_link_call(&tokens).is_none());
    // an empty module body is fine
    let (_, empty) = parse_link_call(&call(vec![])).unwrap();
    assert!(empty.module_items.is_empty());
    // a missing instance expression
    let tokens: Vec<TokenTree> = call(vec![]).into_iter().skip(1).collect();
    assert!(parse_link_call(&tokens).is_none());
}

fn one_function(params: Vec<TokenTree>) -> Vec<TokenTree> {
    call(vec![id("fn"), id("g"), group(Delimiter::Parenthesis, params), p(';')])
}

fn first_input(tokens: &[TokenTree]) -> hydrozoa::sdk_api::LinkItemArg {
    let (_, parsed) = parse_link_call(tokens).unwrap();
    match &parsed.module_items[0] {
        LinkItem::Func(f) => f.inputs[0].clone(),
        LinkItem::Enum(_) => panic!("not a function"),
    }
}

#[test]
fn missing_comma_between_parameters() {
    // fn g(a: i32 b: u32);
    let params = vec![id("a"), p(':'), id("i32"), id("b"), p(':'), id("u32")];
    assert!(parse_link_call(&one_function(params)).is_none());
    // fn g(a b: u32);
    let params = vec![id("a"), id("b"), p(':'), id("u32")];
    assert!(parse_link_call(&one_function(params)).is_none());
}

#[test]
fn generic_and_qualified_types() {
    // fn g(m: HashMap<u32, u32>, s: ::std::string::String, o: Option<u32>);
    let params = vec![
        id("m"),
        p(':'),
        id("HashMap"),
        p('<'),
        id("u32"),
        p(','),
        id("u32"),
        p('>'),
        p(','),
        id("s"),
        p(':'),
        pj(':'),
        p(':'),
        id("std"),
        pj(':'),
        p(':'),
        id("string"),
        pj(':'),
        p(':'),
        id("String"),
        p(','),
        id("o"),
        p(':'),
        id("Option"),
        p('<'),
        id("u32"),
        p('>'),
    ];
    let (parsed, _) = parse_args(&params).unwrap();
    assert_eq!(parsed.len(), 3);
    let m = parsed[0].ty.unwrap();
    assert_eq!((m.start, m.end), (2, 8));
    let tokens = one_function(params);
    let (_, call_model) = parse_link_call(&tokens).unwrap();
    match &call_model.module_items[0] {
        LinkItem::Func(f) => {
            let names: Vec<String> = f
                .inputs
                .iter()
                .map(|a| match &a.fn_arg {
                    FnArgShape::Typed(_, t) => shape_text(t),
                    FnArgShape::Receiver => "self".to_string(),
                })
                .collect();
            assert_eq!(names, vec!["HashMap", "std::string::String", "Option"]);
        }
        LinkItem::Enum(_) => panic!("not a function"),
    }
}

#[test]
fn pointer_reference_and_function_types() {
    // fn g(p: *const u8);
    let a = first_input(&one_function(vec![id("p"), p(':'), p('*'), id("const"), id("u8")]));
    assert!(matches!(a.fn_arg, FnArgShape::Typed(_, TypeShape::Other)));
    // fn g(b: &mut [u8]);
    let a = first_input(&one_function(vec![
        id("b"),
        p(':'),
        p('&'),
        id("mut"),
        group(Delimiter::Bracket, vec![id("u8")]),
    ]));
    assert!(matches!(a.fn_arg, FnArgShape::Typed(_, TypeShape::Other)));
    // fn g(f: extern "C" fn(i32) -> i32);
    let a = first_input(&one_function(vec![
        id("f"),
        p(':'),
        id("extern"),
        TokenTree::Str("C".to_string()),
        id("fn"),
        group(Delimiter::Parenthesis, vec![id("i32")]),
        pj('-'),
        p('>'),
        id("i32"),
    ]));
    assert!(matches!(a.fn_arg, FnArgShape::Typed(_, TypeShape::Other)));
    // fn g(p: *u8); is not a type
    assert!(parse_link_call(&one_function(vec![id("p"), p(':'), p('*'), id("u8")])).is_none());
}

#[test]
fn turbofish_and_closure_wrappers() {
    // fn g(a: i32 as convert::<A, B>, b: i32 as |x, y| x);
    let params = vec![
        id("a"),
        p(':'),
        id("i32"),
        id("as"),
        id("convert"),
        pj(':'),
        p(':'),
        p('<'),
        id("A"),
        p(','),
        id("B"),
        p('>'),
        p(','),
        id("b"),
        p(':'),
        id("i32"),
        id("as"),
        p('|'),
        id("x"),
        p(','),
        id("y"),
        p('|'),
        id("x"),
    ];
    let (parsed, _) = parse_args(&params).unwrap();
    assert_eq!(parsed.len(), 2);
    let w = parsed[0].wrapper.unwrap();
    assert_eq!((w.start, w.end), (4, 12));
    let w = parsed[1].wrapper.unwrap();
    assert_eq!((w.start, w.end), (17, 23));
    // a bare comparison is no turbofish: `a < b, c` ends at the comma
    let params = vec![id("a"), p(':'), id("i32"), id("as"), id("f"), p('<'), id("b"), p(','), id("c"), p(':'), id("u32")];
    let (parsed, _) = parse_args(&params).unwrap();
    assert_eq!(parsed.len(), 2);
}

#[test]
fn attributes_on_parameters() {
    // fn g(#[allow(unused)] x: i32, #[a] #[b] y: u32);
    let params = vec![
        p('#'),
        group(Delimiter::Bracket, vec![id("allow"), group(Delimiter::Parenthesis, vec![id("unused")])]),
        id("x"),
        p(':'),
        id("i32"),
        p(','),
        p('#'),
        group(Delimiter::Bracket, vec![id("a")]),
        p('#'),
        group(Delimiter::Bracket, vec![id("b")]),
        id("y"),
        p(':'),
        id("u32"),
    ];
    let (parsed, _) = parse_args(&params).unwrap();
    assert_eq!(parsed.len(), 2);
    assert_eq!((parsed[0].pattern.start, parsed[0].pattern.end), (2, 3));
    assert_eq!((parsed[1].pattern.start, parsed[1].pattern.end), (10, 11));
    let a = first_input(&one_function(params));
    assert!(matches!(&a.fn_arg, FnArgShape::Typed(PatShape::Ident(n), _) if n == "x"));
}
