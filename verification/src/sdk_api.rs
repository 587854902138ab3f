//! The machine-readable description of the SDK functions and enums that the
//! `link!` macro exposes to WebAssembly programs: from the parsed macro input
//! to the items that are serialized for tooling.
use vstd::prelude::*;
use vstd::string::{StrSliceExecFns, StringExecFns};

verus! {

// ---------------------------------------------------------------------------
// The parsed `link!` input, as far as the description reads it.
// ---------------------------------------------------------------------------

/// The shape of a type written in the macro input.
#[derive(Clone, Debug)]
pub enum TypeShape {
    /// A path type, by the identifiers of its segments.
    Path(Vec<String>),
    /// Any other kind of type (a reference, a tuple, ...).
    Other,
}

/// The pattern of a function parameter.
#[derive(Clone, Debug)]
pub enum PatShape {
    /// A plain identifier, as written (possibly with `r#`).
    Ident(String),
    /// A destructuring pattern.
    Other,
}

/// A parameter of a linked function.
#[derive(Clone, Debug)]
pub enum FnArgShape {
    /// A `self` parameter.
    Receiver,
    /// `pattern: type`.
    Typed(PatShape, TypeShape),
}

/// A parameter of a linked function with its optional `as Wrapper` type.
#[derive(Clone, Debug)]
pub struct LinkItemArg {
    pub fn_arg: FnArgShape,
    pub wrapper: Option<TypeShape>,
}

/// The return type of a linked function.
#[derive(Clone, Debug)]
pub enum LinkItemReturnType {
    /// No return type.
    Default,
    /// `-> type`, with its optional `as Wrapper` type.
    Type { return_type: TypeShape, wrapper: Option<TypeShape> },
}

/// A function of the `link!` input.
#[derive(Clone, Debug)]
pub struct LinkFunc {
    /// Whether the function was marked `printf`.
    pub printfness: bool,
    /// The function's name, as written.
    pub ident: String,
    pub inputs: Vec<LinkItemArg>,
    pub output: LinkItemReturnType,
}

/// An enum of the `link!` input.
#[derive(Clone, Debug)]
pub struct LinkEnum {
    /// The enum's name, as written.
    pub name: String,
    pub underlying_type: TypeShape,
    /// Each variant's name and its value, as the integer literal is written.
    pub variants: Vec<(String, String)>,
}

/// An item of the `link!` input.
#[derive(Clone, Debug)]
pub enum LinkItem {
    Func(LinkFunc),
    Enum(LinkEnum),
}

/// A whole `link!` invocation.
#[derive(Clone, Debug)]
pub struct LinkCall {
    /// The value of the module name literal.
    pub module_name: String,
    pub module_items: Vec<LinkItem>,
}

// ---------------------------------------------------------------------------
// The description.
// ---------------------------------------------------------------------------

/// The type of an SDK parameter, return value or enum, as tooling sees it.
#[derive(Clone, Debug)]
pub enum SdkType {
    Bool,
    Int,
    Long,
    Float,
    Double,
    StringPtr,
    Named { name: String },
}

/// A parameter of an SDK function.
#[derive(Clone, Debug)]
pub struct SdkItemParam {
    pub name: String,
    pub ty: SdkType,
}

/// An SDK function.
#[derive(Clone, Debug)]
pub struct SdkItem {
    pub name: String,
    pub params: Vec<SdkItemParam>,
    pub ret: Option<SdkType>,
}

/// An SDK enum, with its variants in the order they were written.
#[derive(Clone, Debug)]
pub struct SdkEnum {
    pub name: String,
    pub underlying_type: SdkType,
    pub variants: Vec<(String, i64)>,
}

/// The description of one linked module.
#[derive(Clone, Debug)]
pub struct SdkModule {
    pub name: String,
    pub items: Vec<SdkItem>,
    pub enums: Vec<SdkEnum>,
}

/// Why a part of the `link!` input has no description.
#[derive(Clone, Copy, Debug, PartialEq, Eq)]
pub enum DescribeError {
    /// A `self` parameter.
    SelfParameter,
    /// A parameter whose pattern is not a plain name.
    Destructuring,
    /// A type that is not a path, and so has no name in the format.
    NotAPath,
    /// A named type the format has no SDK type for.
    UnsupportedType,
    /// An enum value that does not parse as an `i64`.
    BadEnumValue,
}

/// Where in a function or enum a description failed.
#[derive(Clone, Copy, Debug, PartialEq, Eq)]
pub enum Place {
    /// The parameter at this index.
    Param(usize),
    /// The return type or its conversion.
    Return,
    /// An enum's underlying type.
    UnderlyingType,
    /// The enum variant at this index.
    Variant(usize),
}

/// One error the description reports, and where.
#[derive(Clone, Copy, Debug, PartialEq, Eq)]
pub struct Diagnostic {
    pub place: Place,
    pub error: DescribeError,
}

// ---------------------------------------------------------------------------
// Mathematical models.
// ---------------------------------------------------------------------------

/// The model of a type shape.
pub enum TypeShapeView {
    Path(Seq<Seq<char>>),
    Other,
}

/// The model of an SDK type.
pub enum SdkTypeView {
    Bool,
    Int,
    Long,
    Float,
    Double,
    StringPtr,
    Named(Seq<char>),
}

pub open spec fn strings_view(v: Seq<String>) -> Seq<Seq<char>> {
    v.map_values(|s: String| s@)
}

impl View for TypeShape {
    type V = TypeShapeView;

    open spec fn view(&self) -> TypeShapeView {
        match self {
            TypeShape::Path(segments) => TypeShapeView::Path(strings_view(segments@)),
            TypeShape::Other => TypeShapeView::Other,
        }
    }
}

impl View for SdkType {
    type V = SdkTypeView;

    open spec fn view(&self) -> SdkTypeView {
        match self {
            SdkType::Bool => SdkTypeView::Bool,
            SdkType::Int => SdkTypeView::Int,
            SdkType::Long => SdkTypeView::Long,
            SdkType::Float => SdkTypeView::Float,
            SdkType::Double => SdkTypeView::Double,
            SdkType::StringPtr => SdkTypeView::StringPtr,
            SdkType::Named { name } => SdkTypeView::Named(name@),
        }
    }
}

/// `list` joined with `sep` between consecutive elements.
pub open spec fn seq_join(list: Seq<Seq<char>>, sep: Seq<char>) -> Seq<char>
    decreases list.len(),
{
    if list.len() == 0 {
        Seq::empty()
    } else if list.len() == 1 {
        list[0]
    } else {
        seq_join(list.drop_last(), sep) + sep + list.last()
    }
}

/// The name a type has in the description: the identifiers of a path
/// joined with `::`; other types have none.
pub open spec fn path_type_name(t: TypeShapeView) -> Option<Seq<char>> {
    match t {
        TypeShapeView::Path(segments) => Some(seq_join(segments, "::"@)),
        TypeShapeView::Other => None,
    }
}

/// The SDK type a named Rust type maps to.
pub open spec fn sdk_type_for_name(n: Seq<char>) -> Option<SdkTypeView> {
    if n == "bool"@ {
        Some(SdkTypeView::Bool)
    } else if n == "i32"@ || n == "u32"@ || n == "c_uchar"@ || n == "usize"@ {
        Some(SdkTypeView::Int)
    } else if n == "i64"@ || n == "u64"@ {
        Some(SdkTypeView::Long)
    } else if n == "f32"@ || n == "c_float"@ {
        Some(SdkTypeView::Float)
    } else if n == "f64"@ || n == "c_double"@ {
        Some(SdkTypeView::Double)
    } else if n == "CStr"@ {
        Some(SdkTypeView::StringPtr)
    } else {
        None
    }
}

/// The SDK type of a Rust type: that of its name, for supported names.
pub open spec fn spec_from_type(t: TypeShapeView) -> Option<SdkTypeView> {
    match path_type_name(t) {
        Some(n) => sdk_type_for_name(n),
        None => None,
    }
}

/// Why a Rust type has no SDK type: it is not a path, or its name is not
/// one the format knows; none when it has one.
pub open spec fn type_error(t: TypeShapeView) -> Option<DescribeError> {
    match path_type_name(t) {
        None => Some(DescribeError::NotAPath),
        Some(n) => match sdk_type_for_name(n) {
            Some(_) => None,
            None => Some(DescribeError::UnsupportedType),
        },
    }
}

/// An identifier without its raw `r#` prefix.
pub open spec fn unraw(s: Seq<char>) -> Seq<char> {
    if s.len() >= 2 && s[0] == 'r' && s[1] == '#' {
        s.skip(2)
    } else {
        s
    }
}

// ---------------------------------------------------------------------------
// Helpers.
// ---------------------------------------------------------------------------

pub(crate) fn str_equals(s: &str, lit: &str) -> (b: bool)
    ensures
        b == (s@ == lit@),
{
    let n = s.unicode_len();
    let m = lit.unicode_len();
    if n != m {
        return false;
    }
    let mut i: usize = 0;
    while i < n
        invariant
            n == s@.len(),
            m == lit@.len(),
            n == m,
            i <= n,
            forall|j: int| 0 <= j < i ==> s@[j] == lit@[j],
        decreases n - i,
    {
        if s.get_char(i) != lit.get_char(i) {
            return false;
        }
        i = i + 1;
    }
    assert(s@ =~= lit@);
    true
}

/// Removes the raw-identifier prefix `r#`, as `syn`'s `IdentExt::unraw`
/// does.
pub fn unraw_ident(s: &str) -> (r: String)
    ensures
        r@ == unraw(s@),
{
    let n = s.unicode_len();
    if n >= 2 && s.get_char(0) == 'r' && s.get_char(1) == '#' {
        let rest = s.substring_char(2, n);
        String::from_str(rest)
    } else {
        String::from_str(s)
    }
}

/// The name of a path type: its segments joined with `::`; any other kind
/// of type cannot be represented in the format (`NotAPath`).
pub fn get_type_name(ty: &TypeShape) -> (r: Result<String, DescribeError>)
    ensures
        match r {
            Ok(s) => path_type_name(ty@) == Some(s@),
            Err(e) => path_type_name(ty@) is None && e == DescribeError::NotAPath,
        },
{
    match ty {
        TypeShape::Path(segments) => {
            let mut name = String::new();
            let mut i: usize = 0;
            proof {
                reveal_strlit("::");
            }
            while i < segments.len()
                invariant
                    i <= segments@.len(),
                    name@ == seq_join(strings_view(segments@).take(i as int), "::"@),
                decreases segments@.len() - i,
            {
                let ghost before = name@;
                if i > 0 {
                    name.append("::");
                }
                name.append(segments[i].as_str());
                proof {
                    let l = strings_view(segments@);
                    assert(l.take(i + 1).drop_last() =~= l.take(i as int));
                    if i == 0 {
                        assert(before =~= Seq::<char>::empty());
                        assert(name@ =~= l.take(1)[0]);
                    }
                }
                i = i + 1;
            }
            proof {
                assert(strings_view(segments@).take(segments@.len() as int) =~= strings_view(
                    segments@,
                ));
            }
            Ok(name)
        },
        TypeShape::Other => Err(DescribeError::NotAPath),
    }
}

/// The SDK type for a type name.
fn sdk_type_from_name(name: &str) -> (r: Option<SdkType>)
    ensures
        match r {
            Some(t) => sdk_type_for_name(name@) == Some(t@),
            None => sdk_type_for_name(name@) is None,
        },
{
    if str_equals(name, "bool") {
        Some(SdkType::Bool)
    } else if str_equals(name, "i32") || str_equals(name, "u32") || str_equals(name, "c_uchar")
        || str_equals(name, "usize") {
        Some(SdkType::Int)
    } else if str_equals(name, "i64") || str_equals(name, "u64") {
        Some(SdkType::Long)
    } else if str_equals(name, "f32") || str_equals(name, "c_float") {
        Some(SdkType::Float)
    } else if str_equals(name, "f64") || str_equals(name, "c_double") {
        Some(SdkType::Double)
    } else if str_equals(name, "CStr") {
        Some(SdkType::StringPtr)
    } else {
        None
    }
}

impl SdkType {
    /// The SDK type of a Rust type, or why it has none.
    pub fn from_type(ty: &TypeShape) -> (r: Result<SdkType, DescribeError>)
        ensures
            match r {
                Ok(t) => spec_from_type(ty@) == Some(t@),
                Err(e) => spec_from_type(ty@) is None && type_error(ty@) == Some(e),
            },
    {
        match get_type_name(ty) {
            Ok(name) => match sdk_type_from_name(name.as_str()) {
                Some(t) => Ok(t),
                None => Err(DescribeError::UnsupportedType),
            },
            Err(e) => Err(e),
        }
    }
}


// ---------------------------------------------------------------------------
// Parameters, functions, enums and modules.
// ---------------------------------------------------------------------------

/// The model of an SDK parameter: its name and type.
pub struct SdkItemParamView {
    pub name: Seq<char>,
    pub ty: SdkTypeView,
}

impl View for SdkItemParam {
    type V = SdkItemParamView;

    open spec fn view(&self) -> SdkItemParamView {
        SdkItemParamView { name: self.name@, ty: self.ty@ }
    }
}

/// The model of an SDK function.
pub struct SdkItemView {
    pub name: Seq<char>,
    pub params: Seq<SdkItemParamView>,
    pub ret: Option<SdkTypeView>,
}

pub open spec fn params_view(v: Seq<SdkItemParam>) -> Seq<SdkItemParamView> {
    v.map_values(|p: SdkItemParam| p@)
}

pub open spec fn option_type_view(t: Option<SdkType>) -> Option<SdkTypeView> {
    match t {
        Some(t) => Some(t@),
        None => None,
    }
}

impl View for SdkItem {
    type V = SdkItemView;

    open spec fn view(&self) -> SdkItemView {
        SdkItemView {
            name: self.name@,
            params: params_view(self.params@),
            ret: option_type_view(self.ret),
        }
    }
}

/// The type a wrapper type stands for: the named type.
pub open spec fn wrapper_sdk_type(w: TypeShapeView) -> Option<SdkTypeView> {
    match path_type_name(w) {
        Some(n) => Some(SdkTypeView::Named(n)),
        None => None,
    }
}

/// The description of a parameter: none for a `self` parameter or a
/// destructuring pattern; else its name without `r#`, and the type named by
/// its wrapper if it has one, or else the SDK type of its Rust type.
pub open spec fn spec_param(arg: LinkItemArg) -> Option<SdkItemParamView> {
    match arg.fn_arg {
        FnArgShape::Receiver => None,
        FnArgShape::Typed(pat, ty) => match pat {
            PatShape::Other => None,
            PatShape::Ident(name) => {
                let t = match arg.wrapper {
                    Some(w) => wrapper_sdk_type(w@),
                    None => spec_from_type(ty@),
                };
                match t {
                    Some(t) => Some(SdkItemParamView { name: unraw(name@), ty: t }),
                    None => None,
                }
            },
        },
    }
}

/// The descriptions of all parameters, or none if one has none.
pub open spec fn spec_params(args: Seq<LinkItemArg>) -> Option<Seq<SdkItemParamView>>
    decreases args.len(),
{
    if args.len() == 0 {
        Some(Seq::empty())
    } else {
        match (spec_params(args.drop_last()), spec_param(args.last())) {
            (Some(ps), Some(p)) => Some(ps.push(p)),
            _ => None,
        }
    }
}

/// The description of a return type: `Some(None)` for none, the named type
/// of a wrapper (none at all if the wrapper is not a path), or else the
/// SDK type of the Rust type, which is absent for unsupported types.
pub open spec fn spec_return(output: LinkItemReturnType) -> Option<Option<SdkTypeView>> {
    match output {
        LinkItemReturnType::Default => Some(None),
        LinkItemReturnType::Type { return_type, wrapper } => match wrapper {
            Some(w) => match wrapper_sdk_type(w@) {
                Some(t) => Some(Some(t)),
                None => None,
            },
            None => Some(spec_from_type(return_type@)),
        },
    }
}

/// Why a parameter has no description: a `self` parameter, a destructuring
/// pattern, a conversion that is not a path, or a type without an SDK type;
/// none when it has one.
pub open spec fn param_error(arg: LinkItemArg) -> Option<DescribeError> {
    match arg.fn_arg {
        FnArgShape::Receiver => Some(DescribeError::SelfParameter),
        FnArgShape::Typed(pat, ty) => match pat {
            PatShape::Other => Some(DescribeError::Destructuring),
            PatShape::Ident(_) => match arg.wrapper {
                Some(w) => if path_type_name(w@) is None {
                    Some(DescribeError::NotAPath)
                } else {
                    None
                },
                None => type_error(ty@),
            },
        },
    }
}

/// Why a return type has no description; none when it has one.
pub open spec fn return_error(output: LinkItemReturnType) -> Option<DescribeError> {
    match output {
        LinkItemReturnType::Default => None,
        LinkItemReturnType::Type { return_type, wrapper } => match wrapper {
            Some(w) => if path_type_name(w@) is None {
                Some(DescribeError::NotAPath)
            } else {
                None
            },
            None => type_error(return_type@),
        },
    }
}

/// One diagnostic for each parameter without a description, in order.
pub open spec fn param_diagnostics(args: Seq<LinkItemArg>) -> Seq<Diagnostic>
    decreases args.len(),
{
    if args.len() == 0 {
        Seq::empty()
    } else {
        param_diagnostics(args.drop_last()) + match param_error(args.last()) {
            Some(e) => seq![Diagnostic { place: Place::Param((args.len() - 1) as usize), error: e }],
            None => Seq::empty(),
        }
    }
}

/// What the description of a function reports: every parameter without a
/// description; when all have one, the return type if it has none.
pub open spec fn item_diagnostics(f: LinkFunc) -> Seq<Diagnostic> {
    let pd = param_diagnostics(f.inputs@);
    if pd.len() > 0 {
        pd
    } else {
        match return_error(f.output) {
            Some(e) => seq![Diagnostic { place: Place::Return, error: e }],
            None => Seq::empty(),
        }
    }
}

/// The parameter a `printf` function gets for its format string.
pub open spec fn printf_param() -> SdkItemParamView {
    SdkItemParamView { name: "string"@, ty: SdkTypeView::StringPtr }
}

/// The description of a function.
pub open spec fn spec_item(f: LinkFunc) -> Option<SdkItemView> {
    match (spec_params(f.inputs@), spec_return(f.output)) {
        (Some(ps), Some(ret)) => Some(
            SdkItemView {
                name: unraw(f.ident@),
                params: if f.printfness {
                    ps.push(printf_param())
                } else {
                    ps
                },
                ret: ret,
            },
        ),
        _ => None,
    }
}

impl SdkItemParam {
    /// Describes a parameter of a linked function, or says why it has no
    /// description.
    pub fn new(arg: &LinkItemArg) -> (r: Result<SdkItemParam, DescribeError>)
        ensures
            match r {
                Ok(p) => spec_param(*arg) == Some(p@),
                Err(e) => spec_param(*arg) is None && param_error(*arg) == Some(e),
            },
    {
        let (pat, ty) = match &arg.fn_arg {
            FnArgShape::Receiver => return Err(DescribeError::SelfParameter),
            FnArgShape::Typed(pat, ty) => (pat, ty),
        };
        let name = match pat {
            PatShape::Ident(name) => name,
            PatShape::Other => return Err(DescribeError::Destructuring),
        };
        let t = match &arg.wrapper {
            Some(w) => match get_type_name(w) {
                Ok(n) => SdkType::Named { name: n },
                Err(e) => return Err(e),
            },
            None => match SdkType::from_type(ty) {
                Ok(t) => t,
                Err(e) => return Err(e),
            },
        };
        Ok(SdkItemParam { name: unraw_ident(name.as_str()), ty: t })
    }
}

/// What describing a return type yields: the description (none only for a
/// conversion that is not a path; an unsupported Rust type is described as
/// no return value), and the error reported along the way, if any.
pub struct ReturnDescription {
    pub ret: Option<Option<SdkType>>,
    pub error: Option<DescribeError>,
}

impl SdkType {
    /// Describes the return type of a linked function: `Some(None)` when it
    /// has none. A conversion that is not a path gives `None`; a Rust type
    /// with no SDK type gives `Some(None)`; both report their error.
    pub fn from_return_type(output: &LinkItemReturnType) -> (r: ReturnDescription)
        ensures
            match r.ret {
                Some(t) => spec_return(*output) == Some(option_type_view(t)),
                None => spec_return(*output) is None,
            },
            r.error == return_error(*output),
    {
        match output {
            LinkItemReturnType::Default => ReturnDescription { ret: Some(None), error: None },
            LinkItemReturnType::Type { return_type, wrapper } => match wrapper {
                Some(w) => match get_type_name(w) {
                    Ok(n) => ReturnDescription {
                        ret: Some(Some(SdkType::Named { name: n })),
                        error: None,
                    },
                    Err(e) => ReturnDescription { ret: None, error: Some(e) },
                },
                None => match SdkType::from_type(return_type) {
                    Ok(t) => ReturnDescription { ret: Some(Some(t)), error: None },
                    Err(e) => ReturnDescription { ret: Some(None), error: Some(e) },
                },
            },
        }
    }
}

impl SdkItem {
    /// Describes a linked function: its name without `r#`, its parameters
    /// (with the format string last for a `printf` function) and its return
    /// type, and the errors reported along the way. Every parameter without
    /// a description is reported, and then there is no description; when all
    /// have one, the return type is described, and an error it reports is
    /// reported too.
    pub fn new(item: &LinkFunc) -> (r: (Option<SdkItem>, Vec<Diagnostic>))
        ensures
            match r.0 {
                Some(it) => spec_item(*item) == Some(it@),
                None => spec_item(*item) is None,
            },
            r.1@ == item_diagnostics(*item),
    {
        let mut params: Vec<SdkItemParam> = Vec::new();
        let mut diagnostics: Vec<Diagnostic> = Vec::new();
        let mut i: usize = 0;
        assert(item.inputs@.take(0) =~= Seq::<LinkItemArg>::empty());
        while i < item.inputs.len()
            invariant
                i <= item.inputs@.len(),
                diagnostics@ == param_diagnostics(item.inputs@.take(i as int)),
                (spec_params(item.inputs@.take(i as int)) is Some) == (diagnostics@.len() == 0),
                diagnostics@.len() == 0 ==> spec_params(item.inputs@.take(i as int)) == Some(
                    params_view(params@),
                ),
            decreases item.inputs@.len() - i,
        {
            let ghost prefix = item.inputs@.take(i + 1);
            proof {
                assert(prefix.drop_last() =~= item.inputs@.take(i as int));
                assert(prefix.last() == item.inputs@[i as int]);
            }
            match SdkItemParam::new(&item.inputs[i]) {
                Ok(p) => {
                    params.push(p);
                    proof {
                        assert(params_view(params@) =~= params_view(params@.drop_last()).push(p@));
                        assert(param_diagnostics(prefix) =~= param_diagnostics(prefix.drop_last()));
                    }
                },
                Err(e) => {
                    let d = Diagnostic { place: Place::Param(i), error: e };
                    diagnostics.push(d);
                    proof {
                        assert(param_diagnostics(prefix) =~= param_diagnostics(prefix.drop_last())
                            + seq![d]);
                    }
                },
            }
            i = i + 1;
        }
        proof {
            assert(item.inputs@.take(item.inputs@.len() as int) =~= item.inputs@);
        }
        if diagnostics.len() > 0 {
            return (None, diagnostics);
        }
        if item.printfness {
            proof {
                reveal_strlit("string");
            }
            let ghost before = params_view(params@);
            params.push(SdkItemParam { name: String::from_str("string"), ty: SdkType::StringPtr });
            proof {
                assert(params_view(params@) =~= before.push(printf_param()));
            }
        }
        let described = SdkType::from_return_type(&item.output);
        match described.error {
            Some(e) => {
                let d = Diagnostic { place: Place::Return, error: e };
                diagnostics.push(d);
                assert(diagnostics@ =~= seq![d]);
            },
            None => {
                assert(diagnostics@ =~= Seq::<Diagnostic>::empty());
            },
        }
        match described.ret {
            Some(ret) => (
                Some(SdkItem { name: unraw_ident(item.ident.as_str()), params, ret }),
                diagnostics,
            ),
            None => (None, diagnostics),
        }
    }
}

/// Once a prefix of a sequence has no description, no longer prefix has
/// one, for a description `f` that is built from the sequence without its
/// last element.
pub proof fn lemma_none_extends<A, B>(f: spec_fn(Seq<A>) -> Option<B>, v: Seq<A>, k: int)
    requires
        0 <= k <= v.len(),
        f(v.take(k)) is None,
        forall|s: Seq<A>| s.len() > 0 && #[trigger] f(s.drop_last()) is None ==> f(s) is None,
    ensures
        f(v) is None,
    decreases v.len() - k,
{
    if k < v.len() {
        assert(v.take(k + 1).drop_last() =~= v.take(k));
        lemma_none_extends(f, v, k + 1);
    } else {
        assert(v.take(k) =~= v);
    }
}

/// The index of the first element of `v` that fails, if one does.
pub open spec fn first_failing<A>(v: Seq<A>, fails: spec_fn(A) -> bool) -> Option<int>
    decreases v.len(),
{
    if v.len() == 0 {
        None
    } else {
        match first_failing(v.drop_last(), fails) {
            Some(k) => Some(k),
            None => if fails(v.last()) {
                Some(v.len() - 1)
            } else {
                None
            },
        }
    }
}

/// The first failing element of a prefix is the first failing element of
/// the whole sequence.
pub proof fn lemma_first_failing_prefix<A>(v: Seq<A>, fails: spec_fn(A) -> bool, k: int)
    requires
        0 <= k <= v.len(),
        first_failing(v.take(k), fails) is Some,
    ensures
        first_failing(v, fails) == first_failing(v.take(k), fails),
    decreases v.len() - k,
{
    if k < v.len() {
        assert(v.take(k + 1).drop_last() =~= v.take(k));
        lemma_first_failing_prefix(v, fails, k + 1);
    } else {
        assert(v.take(k) =~= v);
    }
}

// ---------------------------------------------------------------------------
// Enum values.
// ---------------------------------------------------------------------------

pub open spec fn is_digit(c: char) -> bool {
    '0' <= c && c <= '9'
}

pub open spec fn digit_value(c: char) -> int {
    (c as int) - ('0' as int)
}

pub open spec fn all_digits(s: Seq<char>) -> bool {
    forall|i: int| 0 <= i < s.len() ==> #[trigger] is_digit(s[i])
}

/// The number a string of decimal digits writes.
pub open spec fn decimal_value(s: Seq<char>) -> int
    decreases s.len(),
{
    if s.len() == 0 {
        0
    } else {
        decimal_value(s.drop_last()) * 10 + digit_value(s.last())
    }
}

/// What `str::parse::<i64>` gives for `s`: an optional sign followed by at
/// least one decimal digit, whose value lies in the range of `i64`.
pub open spec fn parse_i64(s: Seq<char>) -> Option<int> {
    if s.len() > 0 && (s[0] == '+' || s[0] == '-') {
        let d = s.skip(1);
        let v = if s[0] == '-' {
            -decimal_value(d)
        } else {
            decimal_value(d)
        };
        if d.len() > 0 && all_digits(d) && i64::MIN <= v && v <= i64::MAX {
            Some(v)
        } else {
            None
        }
    } else if s.len() > 0 && all_digits(s) && decimal_value(s) <= i64::MAX {
        Some(decimal_value(s))
    } else {
        None
    }
}

proof fn lemma_decimal_value_nonneg(s: Seq<char>)
    requires
        all_digits(s),
    ensures
        decimal_value(s) >= 0,
    decreases s.len(),
{
    if s.len() > 0 {
        assert(all_digits(s.drop_last())) by {
            assert forall|i: int| 0 <= i < s.drop_last().len() implies #[trigger] is_digit(
                s.drop_last()[i],
            ) by {
                assert(is_digit(s[i]));
            }
        }
        lemma_decimal_value_nonneg(s.drop_last());
        assert(is_digit(s[s.len() - 1]));
    }
}

/// The value of a digit string is at least that of each of its prefixes.
proof fn lemma_decimal_value_prefix(s: Seq<char>, k: int)
    requires
        all_digits(s),
        0 <= k <= s.len(),
    ensures
        decimal_value(s.take(k)) <= decimal_value(s),
    decreases s.len() - k,
{
    if k < s.len() {
        let t = s.take(k + 1);
        assert(t.drop_last() =~= s.take(k));
        assert(all_digits(t)) by {
            assert forall|i: int| 0 <= i < t.len() implies #[trigger] is_digit(t[i]) by {
                assert(is_digit(s[i]));
            }
        }
        assert(all_digits(s.take(k))) by {
            assert forall|i: int| 0 <= i < k implies #[trigger] is_digit(s.take(k)[i]) by {
                assert(is_digit(s[i]));
            }
        }
        lemma_decimal_value_nonneg(s.take(k));
        assert(is_digit(s[k]));
        lemma_decimal_value_prefix(s, k + 1);
    } else {
        assert(s.take(k) =~= s);
    }
}

/// The magnitude written by the digits of `s` from index `start` on, if all
/// of them are digits and it does not exceed `limit`.
fn parse_magnitude(s: &str, start: usize, limit: u64) -> (r: Option<u64>)
    requires
        start <= s@.len(),
        limit >= 9,
    ensures
        match r {
            Some(v) => all_digits(s@.skip(start as int)) && v == decimal_value(s@.skip(start as int))
                && v <= limit,
            None => !all_digits(s@.skip(start as int)) || decimal_value(s@.skip(start as int))
                > limit,
        },
{
    let n = s.unicode_len();
    let ghost d = s@.skip(start as int);
    let mut acc: u64 = 0;
    let mut i: usize = start;
    assert(d.take(0) =~= Seq::<char>::empty());
    while i < n
        invariant
            n == s@.len(),
            start <= i <= n,
            d == s@.skip(start as int),
            all_digits(d.take(i - start)),
            acc == decimal_value(d.take(i - start)),
            acc <= limit,
            limit >= 9,
        decreases n - i,
    {
        let c = s.get_char(i);
        proof {
            assert(d[i - start] == c);
        }
        if !(c >= '0' && c <= '9') {
            proof {
                assert(!is_digit(d[i - start]));
            }
            return None;
        }
        let digit: u64 = (c as u32 - '0' as u32) as u64;
        let ghost t = d.take(i - start + 1);
        proof {
            assert(t.drop_last() =~= d.take(i - start));
            assert(t.last() == c);
            assert(all_digits(t)) by {
                assert forall|j: int| 0 <= j < t.len() implies #[trigger] is_digit(t[j]) by {
                    if j < t.len() - 1 {
                        assert(t[j] == d.take(i - start)[j]);
                    }
                }
            }
        }
        if acc > (limit - digit) / 10 {
            proof {
                assert(acc * 10 + digit > limit) by (nonlinear_arith)
                    requires
                        acc > (limit - digit) / 10,
                        digit <= 9,
                        limit >= 9,
                ;
                if all_digits(d) {
                    lemma_decimal_value_prefix(d, i - start + 1);
                }
            }
            return None;
        }
        proof {
            assert(acc * 10 + digit <= limit) by (nonlinear_arith)
                requires
                    acc <= (limit - digit) / 10,
            ;
        }
        acc = acc * 10 + digit;
        i = i + 1;
    }
    proof {
        assert(d.take(i - start) =~= d);
    }
    Some(acc)
}

/// Parses the base-10 digits of an integer as `str::parse::<i64>` does.
pub fn parse_enum_value(s: &str) -> (r: Option<i64>)
    ensures
        match r {
            Some(v) => parse_i64(s@) == Some(v as int),
            None => parse_i64(s@) is None,
        },
{
    let n = s.unicode_len();
    if n == 0 {
        return None;
    }
    let first = s.get_char(0);
    if first == '+' || first == '-' {
        if n == 1 {
            return None;
        }
        let limit: u64 = if first == '-' {
            0x8000_0000_0000_0000u64
        } else {
            0x7FFF_FFFF_FFFF_FFFFu64
        };
        match parse_magnitude(s, 1, limit) {
            Some(m) => {
                if first == '-' {
                    if m == 0x8000_0000_0000_0000u64 {
                        Some(i64::MIN)
                    } else {
                        Some(-(m as i64))
                    }
                } else {
                    Some(m as i64)
                }
            },
            None => None,
        }
    } else {
        match parse_magnitude(s, 0, 0x7FFF_FFFF_FFFF_FFFFu64) {
            Some(m) => {
                proof {
                    assert(s@.skip(0) =~= s@);
                }
                Some(m as i64)
            },
            None => {
                proof {
                    assert(s@.skip(0) =~= s@);
                }
                None
            },
        }
    }
}

/// The base-10 digits syn gives for an integer literal written as `text`
/// (its value, after any sign, radix prefix, `_` separators and type
/// suffix), or none when `text` is not an integer literal.
pub uninterp spec fn int_literal_digits(text: Seq<char>) -> Option<Seq<char>>;

/// Parses `text` with `syn::parse_str::<syn::LitInt>` and returns the
/// literal's `base10_digits`: for an integer literal, its value in base 10
/// (with a leading `-` when negative), which `int_literal_digits` names.
#[verifier::external_body]
fn literal_base10_digits(text: &str) -> (r: Option<String>)
    ensures
        match r {
            Some(d) => int_literal_digits(text@) == Some(d@),
            None => int_literal_digits(text@) is None,
        },
{
    match syn::parse_str::<syn::LitInt>(text) {
        Ok(lit) => Some(lit.base10_digits().to_string()),
        Err(_) => None,
    }
}

/// The value of an enum variant written as `text`, as the literal's
/// `base10_parse::<i64>` gives it: its base-10 digits parsed as an `i64`.
pub open spec fn spec_enum_value(text: Seq<char>) -> Option<int> {
    match int_literal_digits(text) {
        Some(d) => parse_i64(d),
        None => None,
    }
}

/// The value of an enum variant written as `text`: the integer literal's
/// base-10 digits, parsed as an `i64`; `None` when `text` is no integer
/// literal or its value does not fit.
pub fn enum_value(text: &str) -> (r: Option<i64>)
    ensures
        match r {
            Some(v) => spec_enum_value(text@) == Some(v as int),
            None => spec_enum_value(text@) is None,
        },
{
    match literal_base10_digits(text) {
        Some(digits) => parse_enum_value(digits.as_str()),
        None => None,
    }
}

/// The model of an SDK enum.
pub struct SdkEnumView {
    pub name: Seq<char>,
    pub underlying_type: SdkTypeView,
    pub variants: Seq<(Seq<char>, int)>,
}

pub open spec fn variants_view(v: Seq<(String, i64)>) -> Seq<(Seq<char>, int)> {
    v.map_values(|p: (String, i64)| (p.0@, p.1 as int))
}

impl View for SdkEnum {
    type V = SdkEnumView;

    open spec fn view(&self) -> SdkEnumView {
        SdkEnumView {
            name: self.name@,
            underlying_type: self.underlying_type@,
            variants: variants_view(self.variants@),
        }
    }
}

/// The described variants, or none if a value does not parse.
pub open spec fn spec_variants(v: Seq<(String, String)>) -> Option<Seq<(Seq<char>, int)>>
    decreases v.len(),
{
    if v.len() == 0 {
        Some(Seq::empty())
    } else {
        match (spec_variants(v.drop_last()), spec_enum_value(v.last().1@)) {
            (Some(vs), Some(x)) => Some(vs.push((unraw(v.last().0@), x))),
            _ => None,
        }
    }
}

/// The description of an enum: its name without `r#`, the SDK type of its
/// underlying type and its variants with their values.
pub open spec fn spec_enum(e: LinkEnum) -> Option<SdkEnumView> {
    match (spec_from_type(e.underlying_type@), spec_variants(e.variants@)) {
        (Some(t), Some(vs)) => Some(
            SdkEnumView { name: unraw(e.name@), underlying_type: t, variants: vs },
        ),
        _ => None,
    }
}

/// A variant whose value does not parse as an `i64`.
pub open spec fn bad_variant(p: (String, String)) -> bool {
    spec_enum_value(p.1@) is None
}

/// What the description of an enum reports when it has none: its
/// underlying type when that has no SDK type, else the first variant whose
/// value does not parse.
pub open spec fn enum_diagnostic(e: LinkEnum) -> Option<Diagnostic> {
    match type_error(e.underlying_type@) {
        Some(err) => Some(Diagnostic { place: Place::UnderlyingType, error: err }),
        None => match first_failing(e.variants@, |p: (String, String)| bad_variant(p)) {
            Some(k) => Some(
                Diagnostic { place: Place::Variant(k as usize), error: DescribeError::BadEnumValue },
            ),
            None => None,
        },
    }
}

impl SdkEnum {
    /// Describes an enum of the `link!` input, or reports why it has no
    /// description: its underlying type is unsupported, or a value does not
    /// parse as an `i64` (the first such variant).
    pub fn new(item: &LinkEnum) -> (r: Result<SdkEnum, Diagnostic>)
        ensures
            match r {
                Ok(e) => spec_enum(*item) == Some(e@),
                Err(d) => spec_enum(*item) is None && enum_diagnostic(*item) == Some(d),
            },
    {
        let name = unraw_ident(item.name.as_str());
        let underlying_type = match SdkType::from_type(&item.underlying_type) {
            Ok(t) => t,
            Err(e) => return Err(Diagnostic { place: Place::UnderlyingType, error: e }),
        };
        let ghost fails = |p: (String, String)| bad_variant(p);
        let mut variants: Vec<(String, i64)> = Vec::new();
        let mut i: usize = 0;
        assert(item.variants@.take(0) =~= Seq::<(String, String)>::empty());
        while i < item.variants.len()
            invariant
                i <= item.variants@.len(),
                fails == (|p: (String, String)| bad_variant(p)),
                type_error(item.underlying_type@) is None,
                spec_variants(item.variants@.take(i as int)) == Some(variants_view(variants@)),
                first_failing(item.variants@.take(i as int), fails) is None,
            decreases item.variants@.len() - i,
        {
            let ghost prefix = item.variants@.take(i + 1);
            proof {
                assert(prefix.drop_last() =~= item.variants@.take(i as int));
                assert(prefix.last() == item.variants@[i as int]);
            }
            let (variant, value) = &item.variants[i];
            match enum_value(value.as_str()) {
                Some(x) => {
                    let ghost before = variants@;
                    variants.push((unraw_ident(variant.as_str()), x));
                    proof {
                        assert(variants@.drop_last() =~= before);
                        assert(variants_view(variants@) =~= variants_view(before).push(
                            variants_view(variants@).last(),
                        ));
                    }
                },
                None => {
                    proof {
                        assert(fails(prefix.last()));
                        assert(first_failing(prefix, fails) == Some(i as int));
                        lemma_first_failing_prefix(item.variants@, fails, i + 1);
                        assert forall|s: Seq<(String, String)>|
                            s.len() > 0 && #[trigger] spec_variants(s.drop_last())
                                is None implies spec_variants(s) is None by {}
                        lemma_none_extends(
                            |s: Seq<(String, String)>| spec_variants(s),
                            item.variants@,
                            i + 1,
                        );
                    }
                    return Err(
                        Diagnostic { place: Place::Variant(i), error: DescribeError::BadEnumValue },
                    );
                },
            }
            i = i + 1;
        }
        proof {
            assert(item.variants@.take(item.variants@.len() as int) =~= item.variants@);
        }
        Ok(SdkEnum { name, underlying_type, variants })
    }
}


// ---------------------------------------------------------------------------
// Modules.
// ---------------------------------------------------------------------------

/// The model of a module description.
pub struct SdkModuleView {
    pub name: Seq<char>,
    pub items: Seq<SdkItemView>,
    pub enums: Seq<SdkEnumView>,
}

pub open spec fn items_view(v: Seq<SdkItem>) -> Seq<SdkItemView> {
    v.map_values(|it: SdkItem| it@)
}

pub open spec fn enums_view(v: Seq<SdkEnum>) -> Seq<SdkEnumView> {
    v.map_values(|e: SdkEnum| e@)
}

impl View for SdkModule {
    type V = SdkModuleView;

    open spec fn view(&self) -> SdkModuleView {
        SdkModuleView {
            name: self.name@,
            items: items_view(self.items@),
            enums: enums_view(self.enums@),
        }
    }
}

/// The descriptions of the functions among `items`, in order, or none if
/// one of them has none.
pub open spec fn spec_funcs(items: Seq<LinkItem>) -> Option<Seq<SdkItemView>>
    decreases items.len(),
{
    if items.len() == 0 {
        Some(Seq::empty())
    } else {
        match items.last() {
            LinkItem::Func(f) => match (spec_funcs(items.drop_last()), spec_item(f)) {
                (Some(fs), Some(it)) => Some(fs.push(it)),
                _ => None,
            },
            LinkItem::Enum(_) => spec_funcs(items.drop_last()),
        }
    }
}

/// The descriptions of the enums among `items`, in order, or none if one
/// of them has none.
pub open spec fn spec_enums(items: Seq<LinkItem>) -> Option<Seq<SdkEnumView>>
    decreases items.len(),
{
    if items.len() == 0 {
        Some(Seq::empty())
    } else {
        match items.last() {
            LinkItem::Enum(e) => match (spec_enums(items.drop_last()), spec_enum(e)) {
                (Some(es), Some(d)) => Some(es.push(d)),
                _ => None,
            },
            LinkItem::Func(_) => spec_enums(items.drop_last()),
        }
    }
}

/// The item is a function.
pub open spec fn is_func(it: LinkItem) -> bool {
    it is Func
}

/// The number of functions among `items`.
pub open spec fn func_count(items: Seq<LinkItem>) -> nat {
    items.filter(|it: LinkItem| is_func(it)).len()
}

/// Describing the functions of a sequence of items lists one description
/// for each function, in the order written: as many as there are
/// functions, and the function at position `j` is described at the
/// position given by the number of functions before it.
pub proof fn lemma_funcs_describe_every_function(items: Seq<LinkItem>)
    requires
        spec_funcs(items) is Some,
    ensures
        spec_funcs(items).unwrap().len() == func_count(items),
        forall|j: int|
            0 <= j < items.len() ==> (#[trigger] items[j] matches LinkItem::Func(f) ==> func_count(
                items.take(j),
            ) < func_count(items) && spec_funcs(items).unwrap()[func_count(items.take(j)) as int]
                == spec_item(f).unwrap()),
    decreases items.len(),
{
    reveal(Seq::filter);
    if items.len() > 0 {
        let init = items.drop_last();
        let p = |it: LinkItem| is_func(it);
        assert(items.filter(p) == if is_func(items.last()) {
            init.filter(p).push(items.last())
        } else {
            init.filter(p)
        });
        assert(spec_funcs(init) is Some);
        lemma_funcs_describe_every_function(init);
        let fs = spec_funcs(init).unwrap();
        assert forall|j: int| 0 <= j < items.len() implies (#[trigger] items[j] matches LinkItem::Func(
            f,
        ) ==> func_count(items.take(j)) < func_count(items) && spec_funcs(items).unwrap()[func_count(
            items.take(j),
        ) as int] == spec_item(f).unwrap()) by {
            if j < items.len() - 1 {
                assert(items.take(j) =~= init.take(j));
                assert(items[j] == init[j]);
            } else {
                assert(items.take(j) =~= init);
            }
        }
    }
}

/// The description of a `link!` invocation lists one item for each
/// function of the input, in the order written: describing a module never
/// drops or reorders a function.
pub proof fn lemma_module_describes_every_function(call: LinkCall)
    requires
        spec_module(call) is Some,
    ensures
        spec_module(call).unwrap().items.len() == func_count(call.module_items@),
        forall|j: int|
            0 <= j < call.module_items@.len() ==> (#[trigger] call.module_items@[j] matches LinkItem::Func(
                f,
            ) ==> spec_module(call).unwrap().items[func_count(call.module_items@.take(j)) as int]
                == spec_item(f).unwrap()),
{
    lemma_funcs_describe_every_function(call.module_items@);
}

/// The description of a `link!` invocation.
pub open spec fn spec_module(call: LinkCall) -> Option<SdkModuleView> {
    match (spec_funcs(call.module_items@), spec_enums(call.module_items@)) {
        (Some(fs), Some(es)) => Some(SdkModuleView { name: call.module_name@, items: fs, enums: es }),
        _ => None,
    }
}

/// A function of the input without a description.
pub open spec fn func_fails(it: LinkItem) -> bool {
    match it {
        LinkItem::Func(f) => spec_item(f) is None,
        LinkItem::Enum(_) => false,
    }
}

/// An enum of the input without a description.
pub open spec fn enum_fails(it: LinkItem) -> bool {
    match it {
        LinkItem::Enum(e) => spec_enum(e) is None,
        LinkItem::Func(_) => false,
    }
}

/// The diagnostics of one item, each tagged with the item's index.
pub open spec fn tagged(k: int, ds: Seq<Diagnostic>) -> Seq<(usize, Diagnostic)> {
    ds.map_values(|d: Diagnostic| (k as usize, d))
}

/// What describing the functions among the first `n` items reports, in
/// order, each tagged with its item's index.
pub open spec fn func_diagnostics(items: Seq<LinkItem>, n: int) -> Seq<(usize, Diagnostic)>
    decreases n,
{
    if n <= 0 {
        Seq::empty()
    } else {
        func_diagnostics(items, n - 1) + match items[n - 1] {
            LinkItem::Func(f) => tagged(n - 1, item_diagnostics(f)),
            LinkItem::Enum(_) => Seq::empty(),
        }
    }
}

/// What describing a `link!` invocation reports: the functions are
/// described in order up to the first one without a description, each
/// reporting its errors; when every function has one, the enums are
/// described up to the first one without a description, which reports its
/// error.
pub open spec fn module_diagnostics(call: LinkCall) -> Seq<(usize, Diagnostic)> {
    let items = call.module_items@;
    match first_failing(items, |it: LinkItem| func_fails(it)) {
        Some(k) => func_diagnostics(items, k + 1),
        None => func_diagnostics(items, items.len() as int) + match first_failing(
            items,
            |it: LinkItem| enum_fails(it),
        ) {
            Some(k) => match items[k] {
                LinkItem::Enum(e) => match enum_diagnostic(e) {
                    Some(d) => seq![(k as usize, d)],
                    None => Seq::empty(),
                },
                LinkItem::Func(_) => Seq::empty(),
            },
            None => Seq::empty(),
        },
    }
}

impl SdkModule {
    /// Describes a `link!` invocation: the module name, its functions and
    /// its enums, each in the order written, and what was reported along the
    /// way, by item index. The functions are described first, up to the
    /// first one without a description; then the enums, up to the first one
    /// without a description.
    pub fn new(data: &LinkCall) -> (r: (Option<SdkModule>, Vec<(usize, Diagnostic)>))
        ensures
            match r.0 {
                Some(m) => spec_module(*data) == Some(m@),
                None => spec_module(*data) is None,
            },
            r.1@ == module_diagnostics(*data),
            r.0 matches Some(m) ==> m@.items.len() == func_count(data.module_items@),
            r.0 matches Some(m) ==> forall|j: int|
                0 <= j < data.module_items@.len() ==> (#[trigger] data.module_items@[j] matches LinkItem::Func(
                    f,
                ) ==> m@.items[func_count(data.module_items@.take(j)) as int] == spec_item(
                    f,
                ).unwrap()),
    {
        let ghost all = data.module_items@;
        let ghost ff = |it: LinkItem| func_fails(it);
        let ghost ef = |it: LinkItem| enum_fails(it);
        let mut items: Vec<SdkItem> = Vec::new();
        let mut diagnostics: Vec<(usize, Diagnostic)> = Vec::new();
        let mut i: usize = 0;
        assert(all.take(0) =~= Seq::<LinkItem>::empty());
        while i < data.module_items.len()
            invariant
                all == data.module_items@,
                ff == (|it: LinkItem| func_fails(it)),
                i <= all.len(),
                spec_funcs(all.take(i as int)) == Some(items_view(items@)),
                first_failing(all.take(i as int), ff) is None,
                diagnostics@ == func_diagnostics(all, i as int),
            decreases all.len() - i,
        {
            let ghost prefix = all.take(i + 1);
            proof {
                assert(prefix.drop_last() =~= all.take(i as int));
                assert(prefix.last() == all[i as int]);
            }
            match &data.module_items[i] {
                LinkItem::Func(f) => {
                    let (described, ds) = SdkItem::new(f);
                    let ghost before_diags = diagnostics@;
                    let mut k: usize = 0;
                    while k < ds.len()
                        invariant
                            k <= ds@.len(),
                            diagnostics@ == before_diags + tagged(i as int, ds@.take(k as int)),
                        decreases ds@.len() - k,
                    {
                        diagnostics.push((i, ds[k]));
                        proof {
                            assert(tagged(i as int, ds@.take(k + 1)) =~= tagged(
                                i as int,
                                ds@.take(k as int),
                            ).push((i, ds@[k as int])));
                        }
                        k = k + 1;
                    }
                    proof {
                        assert(ds@.take(ds@.len() as int) =~= ds@);
                        assert(diagnostics@ =~= func_diagnostics(all, i + 1));
                    }
                    match described {
                        Some(it) => {
                            let ghost before = items@;
                            items.push(it);
                            proof {
                                assert(items@.drop_last() =~= before);
                                assert(items_view(items@) =~= items_view(before).push(it@));
                            }
                        },
                        None => {
                            proof {
                                assert(first_failing(prefix, ff) == Some(i as int));
                                lemma_first_failing_prefix(all, ff, i + 1);
                                assert forall|s: Seq<LinkItem>|
                                    s.len() > 0 && #[trigger] spec_funcs(s.drop_last())
                                        is None implies spec_funcs(s) is None by {}
                                lemma_none_extends(|s: Seq<LinkItem>| spec_funcs(s), all, i + 1);
                            }
                            return (None, diagnostics);
                        },
                    }
                },
                LinkItem::Enum(_) => {
                    proof {
                        assert(diagnostics@ =~= func_diagnostics(all, i + 1));
                    }
                },
            }
            i = i + 1;
        }
        proof {
            assert(all.take(all.len() as int) =~= all);
        }
        let mut enums: Vec<SdkEnum> = Vec::new();
        let mut j: usize = 0;
        while j < data.module_items.len()
            invariant
                all == data.module_items@,
                ff == (|it: LinkItem| func_fails(it)),
                ef == (|it: LinkItem| enum_fails(it)),
                first_failing(all, ff) is None,
                spec_funcs(all) == Some(items_view(items@)),
                diagnostics@ == func_diagnostics(all, all.len() as int),
                j <= all.len(),
                spec_enums(all.take(j as int)) == Some(enums_view(enums@)),
                first_failing(all.take(j as int), ef) is None,
            decreases all.len() - j,
        {
            let ghost prefix = all.take(j + 1);
            proof {
                assert(prefix.drop_last() =~= all.take(j as int));
                assert(prefix.last() == all[j as int]);
            }
            match &data.module_items[j] {
                LinkItem::Enum(e) => match SdkEnum::new(e) {
                    Ok(d) => {
                        let ghost before = enums@;
                        enums.push(d);
                        proof {
                            assert(enums@.drop_last() =~= before);
                            assert(enums_view(enums@) =~= enums_view(before).push(d@));
                        }
                    },
                    Err(d) => {
                        proof {
                            assert(first_failing(prefix, ef) == Some(j as int));
                            lemma_first_failing_prefix(all, ef, j + 1);
                            assert forall|s: Seq<LinkItem>|
                                s.len() > 0 && #[trigger] spec_enums(s.drop_last())
                                    is None implies spec_enums(s) is None by {}
                            lemma_none_extends(|s: Seq<LinkItem>| spec_enums(s), all, j + 1);
                        }
                        diagnostics.push((j, d));
                        return (None, diagnostics);
                    },
                },
                LinkItem::Func(_) => {},
            }
            j = j + 1;
        }
        proof {
            assert(all.take(all.len() as int) =~= all);
        }
        let m = SdkModule { name: data.module_name.clone(), items, enums };
        proof {
            assert(spec_module(*data) == Some(m@));
            lemma_module_describes_every_function(*data);
        }
        (Some(m), diagnostics)
    }
}

} // verus!
