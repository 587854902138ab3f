//! What the `link!` macro generates for each SDK function: a closure linked
//! into the WebAssembly module under the function's name, whose parameters
//! are the function's parameters (plus a format string for `printf`
//! functions), each converted by its wrapper before the SDK call, and whose
//! result is converted back by the return wrapper.
use vstd::prelude::*;
use vstd::string::StringExecFns;
use crate::sdk_api::{
    func_count, is_func, spec_item, spec_params, strings_view, unraw, FnArgShape, LinkCall, LinkFunc, LinkItem, LinkItemArg, LinkItemReturnType,
    PatShape, TypeShape, TypeShapeView,
};

verus! {

/// The closure generated for one SDK function.
pub struct ClosurePlan {
    /// The name the closure is linked under: the function's name.
    pub name: String,
    /// The patterns that bind the closure's parameters, in order.
    pub args: Vec<PatShape>,
    /// The closure's parameter types: the raw WebAssembly type of each
    /// parameter, then `i32` for the format string of a `printf` function.
    pub types: Vec<TypeShape>,
    /// For each parameter, the conversion applied before the SDK call.
    pub arg_wrappers: Vec<Option<TypeShape>>,
    /// Whether the closure takes a C string that is passed to the SDK call
    /// through the `"%s"` format.
    pub printf: bool,
    /// The type the closure returns; `None` stands for `()`.
    pub return_type: Option<TypeShape>,
    /// The conversion applied to the SDK call's result.
    pub return_wrapper: Option<TypeShape>,
}

/// The type of the format-string parameter of a `printf` function.
pub open spec fn format_string_type() -> TypeShapeView {
    TypeShapeView::Path(seq!["i32"@])
}

/// No parameter of `f` is `self`: the macro rejects such functions.
pub open spec fn receiver_free(f: LinkFunc) -> bool {
    forall|i: int| 0 <= i < f.inputs@.len() ==> (#[trigger] f.inputs@[i]).fn_arg is Typed
}

/// `plan` is the closure the macro generates for `f`.
pub open spec fn plans_function(plan: ClosurePlan, f: LinkFunc) -> bool {
    let n = f.inputs@.len();
    &&& plan.name == f.ident
    &&& plan.printf == f.printfness
    &&& plan.args@.len() == n
    &&& plan.arg_wrappers@.len() == n
    &&& plan.types@.len() == if f.printfness {
        n + 1
    } else {
        n
    }
    &&& forall|i: int|
        0 <= i < n ==> #[trigger] f.inputs@[i] == (LinkItemArg {
            fn_arg: FnArgShape::Typed(plan.args@[i], plan.types@[i]),
            wrapper: plan.arg_wrappers@[i],
        })
    &&& f.printfness ==> plan.types@[n as int]@ == format_string_type()
    &&& match f.output {
        LinkItemReturnType::Default => plan.return_type is None && plan.return_wrapper is None,
        LinkItemReturnType::Type { return_type, wrapper } => plan.return_type == Some(return_type)
            && plan.return_wrapper == wrapper,
    }
}

impl ClosurePlan {
    /// Plans the closure for one SDK function of the macro input.
    pub fn new(f: LinkFunc) -> (plan: ClosurePlan)
        requires
            receiver_free(f),
        ensures
            plans_function(plan, f),
    {
        let ghost inputs0 = f.inputs@;
        let n = f.inputs.len();
        let LinkFunc { printfness, ident, inputs, output } = f;
        let mut rest = inputs;
        let mut args: Vec<PatShape> = Vec::new();
        let mut types: Vec<TypeShape> = Vec::new();
        let mut arg_wrappers: Vec<Option<TypeShape>> = Vec::new();
        let mut i: usize = 0;
        while i < n
            invariant
                n == inputs0.len(),
                i <= n,
                rest@ == inputs0.skip(i as int),
                args@.len() == i,
                types@.len() == i,
                arg_wrappers@.len() == i,
                forall|k: int| 0 <= k < n ==> (#[trigger] inputs0[k]).fn_arg is Typed,
                forall|k: int|
                    0 <= k < i ==> #[trigger] inputs0[k] == (LinkItemArg {
                        fn_arg: FnArgShape::Typed(args@[k], types@[k]),
                        wrapper: arg_wrappers@[k],
                    }),
            decreases n - i,
        {
            let arg = rest.remove(0);
            proof {
                assert(arg == inputs0[i as int]);
                assert(rest@ =~= inputs0.skip(i + 1));
            }
            let LinkItemArg { fn_arg, wrapper } = arg;
            if let FnArgShape::Typed(pat, ty) = fn_arg {
                args.push(pat);
                types.push(ty);
                arg_wrappers.push(wrapper);
            }
            i = i + 1;
        }
        if printfness {
            proof {
                reveal_strlit("i32");
            }
            let segments = vec![String::from_str("i32")];
            proof {
                assert(strings_view(segments@) =~= seq!["i32"@]);
            }
            types.push(TypeShape::Path(segments));
        }
        let (return_type, return_wrapper) = match output {
            LinkItemReturnType::Default => (None, None),
            LinkItemReturnType::Type { return_type, wrapper } => (Some(return_type), wrapper),
        };
        ClosurePlan { name: ident, args, types, arg_wrappers, printf: printfness, return_type, return_wrapper }
    }
}

/// The functions among the items of a `link!` invocation, in order.
pub open spec fn functions_of(items: Seq<LinkItem>) -> Seq<LinkFunc>
    decreases items.len(),
{
    if items.len() == 0 {
        Seq::empty()
    } else {
        match items.last() {
            LinkItem::Func(f) => functions_of(items.drop_last()).push(f),
            LinkItem::Enum(_) => functions_of(items.drop_last()),
        }
    }
}

/// Every function of an invocation is planned, whatever its parameters:
/// the functions are as many as the function items, and the function item
/// at position `j` is planned at the position given by the number of
/// functions before it. With `link_plans`, each function gets exactly one
/// closure, in the order written.
pub proof fn lemma_every_function_planned(items: Seq<LinkItem>)
    ensures
        functions_of(items).len() == func_count(items),
        forall|j: int|
            0 <= j < items.len() ==> (#[trigger] items[j] matches LinkItem::Func(f) ==> func_count(
                items.take(j),
            ) < func_count(items) && functions_of(items)[func_count(items.take(j)) as int] == f),
    decreases items.len(),
{
    reveal(Seq::filter);
    if items.len() > 0 {
        let init = items.drop_last();
        let p = |it: LinkItem| is_func(it);
        assert(items.filter(p) == if is_func(items.last()) {
            init.filter(p).push(items.last())
        } else {
            init.filter(p)
        });
        lemma_every_function_planned(init);
        assert forall|j: int| 0 <= j < items.len() implies (#[trigger] items[j] matches LinkItem::Func(
            f,
        ) ==> func_count(items.take(j)) < func_count(items) && functions_of(items)[func_count(
            items.take(j),
        ) as int] == f) by {
            if j < items.len() - 1 {
                assert(items.take(j) =~= init.take(j));
                assert(items[j] == init[j]);
            } else {
                assert(items.take(j) =~= init);
            }
        }
    }
}

/// Plans the closures of a whole `link!` invocation: one per function, in
/// the order written; enums only describe values and get none. Every
/// closure is linked into the module named by the invocation.
pub fn link_plans(call: LinkCall) -> (plans: Vec<ClosurePlan>)
    requires
        forall|i: int|
            0 <= i < functions_of(call.module_items@).len() ==> receiver_free(
                #[trigger] functions_of(call.module_items@)[i],
            ),
    ensures
        plans@.len() == functions_of(call.module_items@).len(),
        forall|i: int|
            0 <= i < plans@.len() ==> plans_function(
                #[trigger] plans@[i],
                functions_of(call.module_items@)[i],
            ),
        plans@.len() == func_count(call.module_items@),
        forall|j: int|
            0 <= j < call.module_items@.len() ==> (#[trigger] call.module_items@[j] matches LinkItem::Func(
                f,
            ) ==> plans_function(plans@[func_count(call.module_items@.take(j)) as int], f)),
{
    let ghost all = call.module_items@;
    proof {
        lemma_every_function_planned(all);
    }
    let n = call.module_items.len();
    let mut rest = call.module_items;
    let mut plans: Vec<ClosurePlan> = Vec::new();
    let mut i: usize = 0;
    while i < n
        invariant
            n == all.len(),
            i <= n,
            rest@ == all.skip(i as int),
            forall|k: int|
                0 <= k < functions_of(all).len() ==> receiver_free(
                    #[trigger] functions_of(all)[k],
                ),
            plans@.len() == functions_of(all.take(i as int)).len(),
            forall|k: int|
                0 <= k < plans@.len() ==> plans_function(
                    #[trigger] plans@[k],
                    functions_of(all.take(i as int))[k],
                ),
        decreases n - i,
    {
        let item = rest.remove(0);
        proof {
            assert(item == all[i as int]);
            assert(rest@ =~= all.skip(i + 1));
            assert(all.take(i + 1).drop_last() =~= all.take(i as int));
            assert(all.take(i + 1).last() == all[i as int]);
            lemma_functions_prefix(all, i + 1);
        }
        match item {
            LinkItem::Func(f) => {
                proof {
                    let k = functions_of(all.take(i as int)).len() as int;
                    assert(functions_of(all.take(i + 1))[k] == f);
                    assert(functions_of(all)[k] == f);
                }
                let plan = ClosurePlan::new(f);
                plans.push(plan);
            },
            LinkItem::Enum(_) => {},
        }
        i = i + 1;
    }
    proof {
        assert(all.take(n as int) =~= all);
    }
    plans
}

/// The description of an SDK function, when it has one, names the function
/// as the closure linked for it is named (without `r#`) and lists exactly
/// one parameter for each parameter that closure takes.
pub proof fn lemma_description_matches_closure(f: LinkFunc, plan: ClosurePlan)
    requires
        plans_function(plan, f),
        spec_item(f) is Some,
    ensures
        spec_item(f).unwrap().name == unraw(plan.name@),
        spec_item(f).unwrap().params.len() == plan.types@.len(),
{
    lemma_params_len(f.inputs@);
}

proof fn lemma_params_len(args: Seq<LinkItemArg>)
    ensures
        spec_params(args) matches Some(ps) ==> ps.len() == args.len(),
    decreases args.len(),
{
    if args.len() > 0 {
        lemma_params_len(args.drop_last());
    }
}

/// The functions of a prefix of the items are a prefix of the functions
/// of all items.
proof fn lemma_functions_prefix(items: Seq<LinkItem>, k: int)
    requires
        0 <= k <= items.len(),
    ensures
        functions_of(items.take(k)).len() <= functions_of(items).len(),
        forall|j: int|
            0 <= j < functions_of(items.take(k)).len() ==> #[trigger] functions_of(items.take(k))[j]
                == functions_of(items)[j],
    decreases items.len() - k,
{
    if k < items.len() {
        lemma_functions_prefix(items, k + 1);
        let longer = items.take(k + 1);
        assert(longer.drop_last() =~= items.take(k));
        let fs = functions_of(items.take(k));
        assert forall|j: int| 0 <= j < fs.len() implies #[trigger] fs[j] == functions_of(longer)[j] by {
            match longer.last() {
                LinkItem::Func(f) => assert(functions_of(longer) == fs.push(f)),
                LinkItem::Enum(_) => assert(functions_of(longer) == fs),
            }
        }
    } else {
        assert(items.take(k) =~= items);
    }
}

} // verus!
