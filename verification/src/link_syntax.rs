//! The grammar of a `link!` invocation, over the token trees the macro is
//! given:
//!
//! ```text
//! call  := EXPR "," EXPR "," "mod" STRING "{" (item ";")* "}"
//! item  := ["printf"] "fn" IDENT "(" [arg ("," arg)* [","]] ["..."] ")" ["->" TYPE ["as" EXPR]]
//! arg   := PATTERN [":" TYPE] ["as" EXPR]
//! ```
//!
//! A type is read by its own production (see `type_end`); a parameter
//! pattern is one of the forms `pattern_form` lists, after any outer
//! attributes. An expression is the nonempty run of tokens up to the next
//! `,` (or `;` after a return type) that lies outside a delimited group, the
//! arguments of a turbofish `::<..>` and a closure's parameter list; other
//! expressions with a top-level `,` are not accepted. All parts are handed on
//! as spans of token positions.
use vstd::prelude::*;
use vstd::string::StringExecFns;
use crate::sdk_api::{
    str_equals, strings_view, FnArgShape, LinkCall, LinkFunc, LinkItem, LinkItemArg,
    LinkItemReturnType, PatShape, TypeShape, TypeShapeView,
};

verus! {

/// The delimiter of a token group.
#[derive(Clone, Copy, Debug, PartialEq, Eq)]
pub enum Delimiter {
    Parenthesis,
    Brace,
    Bracket,
    Invisible,
}

/// A token tree, as a procedural macro receives it.
#[derive(Debug)]
pub enum TokenTree {
    /// A delimited group and the tokens inside it.
    Group(Delimiter, Vec<TokenTree>),
    /// An identifier or keyword, as written (a raw one with `r#`).
    Ident(String),
    /// A punctuation character, and whether it is joined to the next one.
    Punct(char, bool),
    /// A string literal, by its value.
    Str(String),
    /// Any other literal, as written.
    Literal(String),
}

/// The token positions `start..end` of a stream.
#[derive(Clone, Copy, Debug, PartialEq, Eq)]
pub struct Span {
    pub start: usize,
    pub end: usize,
}

/// Where a run of tokens ends.
#[derive(Clone, Copy, Debug, PartialEq, Eq)]
pub enum RunKind {
    /// An expression of the invocation: up to `,`.
    CallExpr,
    /// A parameter pattern: up to `,`, `as` or a lone `:`.
    Pattern,
    /// A parameter's conversion: up to `,`.
    ArgWrapper,
    /// The return value's conversion: up to `;`.
    ReturnWrapper,
}

pub open spec fn is_punct(t: TokenTree, c: char) -> bool {
    t matches TokenTree::Punct(p, _) && p == c
}

pub open spec fn is_joint_punct(t: TokenTree, c: char) -> bool {
    t matches TokenTree::Punct(p, joint) && p == c && joint
}

pub open spec fn is_word(t: TokenTree, w: Seq<char>) -> bool {
    t matches TokenTree::Ident(s) && s@ == w
}

/// A `:` that is not part of a `::`.
pub open spec fn lone_colon(t: Seq<TokenTree>, i: int) -> bool {
    &&& t[i] matches TokenTree::Punct(p, joint) && p == ':' && !joint
    &&& !(i > 0 && is_joint_punct(t[i - 1], ':'))
}

/// The token at `i` ends a run of the given kind.
pub open spec fn stops(t: Seq<TokenTree>, i: int, kind: RunKind) -> bool {
    match kind {
        RunKind::CallExpr => is_punct(t[i], ','),
        RunKind::Pattern => is_punct(t[i], ',') || is_word(t[i], "as"@) || lone_colon(t, i),
        RunKind::ArgWrapper => is_punct(t[i], ','),
        RunKind::ReturnWrapper => is_punct(t[i], ';'),
    }
}

/// The `<` at `j` opens the generic arguments of a turbofish `::<..>` in an
/// expression.
pub open spec fn turbofish_open(t: Seq<TokenTree>, j: int, kind: RunKind) -> bool {
    kind != RunKind::Pattern && j >= 2 && is_punct(t[j], '<') && path_sep_at(t, j - 2)
}

/// The `|` at `j` opens the parameter list of a closure: the expression
/// that starts at `start` is `|..| body` or `move |..| body`.
pub open spec fn closure_open(t: Seq<TokenTree>, start: int, j: int, kind: RunKind) -> bool {
    kind != RunKind::Pattern && is_punct(t[j], '|') && (j == start || (j == start + 1 && is_word(
        t[start],
        "move"@,
    )))
}

/// Scans a run that started at `start` from position `j`, inside `depth`
/// levels of turbofish arguments, or inside a closure's parameter list when
/// `params` holds; a token that ends the run ends it only outside both.
pub open spec fn scan_end(
    t: Seq<TokenTree>,
    start: int,
    j: int,
    kind: RunKind,
    depth: int,
    params: bool,
) -> int
    decreases t.len() - j,
{
    if j < 0 || j >= t.len() {
        j
    } else if params {
        scan_end(t, start, j + 1, kind, depth, !is_punct(t[j], '|'))
    } else if depth > 0 {
        if is_punct(t[j], '<') {
            scan_end(t, start, j + 1, kind, depth + 1, false)
        } else if closing_angle(t, j) {
            scan_end(t, start, j + 1, kind, depth - 1, false)
        } else {
            scan_end(t, start, j + 1, kind, depth, false)
        }
    } else if stops(t, j, kind) {
        j
    } else if turbofish_open(t, j, kind) {
        scan_end(t, start, j + 1, kind, 1, false)
    } else if closure_open(t, start, j, kind) {
        scan_end(t, start, j + 1, kind, 0, true)
    } else {
        scan_end(t, start, j + 1, kind, 0, false)
    }
}

/// The position where a run of the given kind that starts at `i` ends: the
/// first token from `i` on that ends it, outside the generic arguments of a
/// turbofish and outside a closure's parameter list, or the end of the
/// stream.
pub open spec fn run_end(t: Seq<TokenTree>, i: int, kind: RunKind) -> int {
    scan_end(t, i, i, kind, 0, false)
}

proof fn lemma_scan_end_bounds(
    t: Seq<TokenTree>,
    start: int,
    j: int,
    kind: RunKind,
    depth: int,
    params: bool,
)
    requires
        0 <= j <= t.len(),
    ensures
        j <= scan_end(t, start, j, kind, depth, params) <= t.len(),
        scan_end(t, start, j, kind, depth, params) < t.len() ==> stops(
            t,
            scan_end(t, start, j, kind, depth, params),
            kind,
        ),
    decreases t.len() - j,
{
    if j < t.len() {
        if params {
            lemma_scan_end_bounds(t, start, j + 1, kind, depth, !is_punct(t[j], '|'));
        } else if depth > 0 {
            if is_punct(t[j], '<') {
                lemma_scan_end_bounds(t, start, j + 1, kind, depth + 1, false);
            } else if closing_angle(t, j) {
                lemma_scan_end_bounds(t, start, j + 1, kind, depth - 1, false);
            } else {
                lemma_scan_end_bounds(t, start, j + 1, kind, depth, false);
            }
        } else if stops(t, j, kind) {
        } else if turbofish_open(t, j, kind) {
            lemma_scan_end_bounds(t, start, j + 1, kind, 1, false);
        } else if closure_open(t, start, j, kind) {
            lemma_scan_end_bounds(t, start, j + 1, kind, 0, true);
        } else {
            lemma_scan_end_bounds(t, start, j + 1, kind, 0, false);
        }
    }
}

/// Where a run ends lies between its start and the end of the stream, at a
/// token that ends it unless at the end.
pub proof fn lemma_run_end_bounds(t: Seq<TokenTree>, i: int, kind: RunKind)
    requires
        0 <= i <= t.len(),
    ensures
        i <= run_end(t, i, kind) <= t.len(),
        run_end(t, i, kind) < t.len() ==> stops(t, run_end(t, i, kind), kind),
{
    lemma_scan_end_bounds(t, i, i, kind, 0, false);
}

/// The words Rust reserves, which are no identifiers.
pub open spec fn is_keyword(w: Seq<char>) -> bool {
    ||| w == "_"@ || w == "abstract"@ || w == "as"@ || w == "async"@ || w == "await"@
    ||| w == "become"@ || w == "box"@ || w == "break"@ || w == "const"@ || w == "continue"@
    ||| w == "crate"@ || w == "do"@ || w == "dyn"@ || w == "else"@ || w == "enum"@
    ||| w == "extern"@ || w == "false"@ || w == "final"@ || w == "fn"@ || w == "for"@
    ||| w == "if"@ || w == "impl"@ || w == "in"@ || w == "let"@ || w == "loop"@
    ||| w == "macro"@ || w == "match"@ || w == "mod"@ || w == "move"@ || w == "mut"@
    ||| w == "override"@ || w == "priv"@ || w == "pub"@ || w == "ref"@ || w == "return"@
    ||| w == "Self"@ || w == "self"@ || w == "static"@ || w == "struct"@ || w == "super"@
    ||| w == "trait"@ || w == "true"@ || w == "try"@ || w == "type"@ || w == "typeof"@
    ||| w == "unsafe"@ || w == "unsized"@ || w == "use"@ || w == "virtual"@ || w == "where"@
    ||| w == "while"@ || w == "yield"@
}

fn keyword(s: &str) -> (b: bool)
    ensures
        b == is_keyword(s@),
{
    str_equals(s, "_") || str_equals(s, "abstract") || str_equals(s, "as") || str_equals(s, "async")
        || str_equals(s, "await") || str_equals(s, "become") || str_equals(s, "box") || str_equals(
        s,
        "break",
    ) || str_equals(s, "const") || str_equals(s, "continue") || str_equals(s, "crate")
        || str_equals(s, "do") || str_equals(s, "dyn") || str_equals(s, "else") || str_equals(
        s,
        "enum",
    ) || str_equals(s, "extern") || str_equals(s, "false") || str_equals(s, "final")
        || str_equals(s, "fn") || str_equals(s, "for") || str_equals(s, "if") || str_equals(
        s,
        "impl",
    ) || str_equals(s, "in") || str_equals(s, "let") || str_equals(s, "loop") || str_equals(
        s,
        "macro",
    ) || str_equals(s, "match") || str_equals(s, "mod") || str_equals(s, "move") || str_equals(
        s,
        "mut",
    ) || str_equals(s, "override") || str_equals(s, "priv") || str_equals(s, "pub")
        || str_equals(s, "ref") || str_equals(s, "return") || str_equals(s, "Self") || str_equals(
        s,
        "self",
    ) || str_equals(s, "static") || str_equals(s, "struct") || str_equals(s, "super")
        || str_equals(s, "trait") || str_equals(s, "true") || str_equals(s, "try") || str_equals(
        s,
        "type",
    ) || str_equals(s, "typeof") || str_equals(s, "unsafe") || str_equals(s, "unsized")
        || str_equals(s, "use") || str_equals(s, "virtual") || str_equals(s, "where")
        || str_equals(s, "while") || str_equals(s, "yield")
}

fn punct_is(t: &TokenTree, c: char) -> (b: bool)
    ensures
        b == is_punct(*t, c),
{
    match t {
        TokenTree::Punct(p, _) => *p == c,
        _ => false,
    }
}

fn joint_punct_is(t: &TokenTree, c: char) -> (b: bool)
    ensures
        b == is_joint_punct(*t, c),
{
    match t {
        TokenTree::Punct(p, joint) => *p == c && *joint,
        _ => false,
    }
}

fn word_is(t: &TokenTree, w: &str) -> (b: bool)
    ensures
        b == is_word(*t, w@),
{
    match t {
        TokenTree::Ident(s) => str_equals(s.as_str(), w),
        _ => false,
    }
}

fn ends_run(t: &[TokenTree], i: usize, kind: RunKind) -> (b: bool)
    requires
        i < t@.len(),
    ensures
        b == stops(t@, i as int, kind),
{
    let tok = &t[i];
    match kind {
        RunKind::CallExpr => punct_is(tok, ','),
        RunKind::Pattern => {
            if punct_is(tok, ',') || word_is(tok, "as") {
                true
            } else {
                match tok {
                    TokenTree::Punct(p, joint) => *p == ':' && !*joint && !(i > 0
                        && joint_punct_is(&t[i - 1], ':')),
                    _ => false,
                }
            }
        },
        RunKind::ArgWrapper => punct_is(tok, ','),
        RunKind::ReturnWrapper => punct_is(tok, ';'),
    }
}

/// Finds where the run of the given kind that starts at `i` ends.
pub fn find_run_end(t: &[TokenTree], i: usize, kind: RunKind) -> (e: usize)
    requires
        i <= t@.len(),
    ensures
        e == run_end(t@, i as int, kind),
{
    let mut j: usize = i;
    let mut depth: usize = 0;
    let mut params = false;
    let expression = match kind {
        RunKind::Pattern => false,
        _ => true,
    };
    while j < t.len()
        invariant
            i <= j <= t@.len(),
            depth <= j - i,
            expression == (kind != RunKind::Pattern),
            scan_end(t@, i as int, j as int, kind, depth as int, params) == run_end(
                t@,
                i as int,
                kind,
            ),
        decreases t@.len() - j,
    {
        if params {
            params = !punct_is(&t[j], '|');
        } else if depth > 0 {
            if punct_is(&t[j], '<') {
                depth = depth + 1;
            } else if punct_is(&t[j], '>') && !(j > 0 && joint_punct_is(&t[j - 1], '-')) {
                depth = depth - 1;
            }
        } else if ends_run(t, j, kind) {
            return j;
        } else if expression && j >= 2 && punct_is(&t[j], '<') && joint_punct_is(&t[j - 2], ':')
            && punct_is(&t[j - 1], ':') {
            depth = 1;
        } else if expression && punct_is(&t[j], '|') && (j == i || (j == i + 1 && word_is(
            &t[i],
            "move",
        ))) {
            params = true;
        }
        j = j + 1;
    }
    j
}

// ---------------------------------------------------------------------------
// Types.
// ---------------------------------------------------------------------------

/// `::` starts at `i`.
pub open spec fn path_sep_at(t: Seq<TokenTree>, i: int) -> bool {
    &&& 0 <= i && i + 1 < t.len()
    &&& is_joint_punct(t[i], ':')
    &&& is_punct(t[i + 1], ':')
}

/// A `>` that closes generic arguments (not the `>` of `->`).
pub open spec fn closing_angle(t: Seq<TokenTree>, j: int) -> bool {
    is_punct(t[j], '>') && !(j > 0 && is_joint_punct(t[j - 1], '-'))
}

/// The position after the `>` that closes generic arguments opened `d`
/// levels deep before position `j`.
pub open spec fn angle_close(t: Seq<TokenTree>, j: int, d: int) -> Option<int>
    decreases t.len() - j,
{
    if j < 0 || j >= t.len() || d < 1 {
        None
    } else if is_punct(t[j], '<') {
        angle_close(t, j + 1, d + 1)
    } else if closing_angle(t, j) {
        if d == 1 {
            Some(j + 1)
        } else {
            angle_close(t, j + 1, d - 1)
        }
    } else {
        angle_close(t, j + 1, d)
    }
}

/// The position after the generic arguments of a path segment whose
/// identifier ends before `k` (`<..>` or `::<..>`), or `k` when it has none.
pub open spec fn generics_end(t: Seq<TokenTree>, k: int) -> Option<int> {
    if 0 <= k < t.len() && is_punct(t[k], '<') {
        angle_close(t, k + 1, 1)
    } else if path_sep_at(t, k) && k + 2 < t.len() && is_punct(t[k + 2], '<') {
        angle_close(t, k + 3, 1)
    } else {
        Some(k)
    }
}

/// The identifiers of the path whose segment starts at `j`, after those in
/// `acc`, and the position after the path: segments `name` or
/// `name<args>`, separated by `::`.
pub open spec fn path_segments_from(t: Seq<TokenTree>, j: int, acc: Seq<Seq<char>>) -> Option<
    (Seq<Seq<char>>, int),
>
    decreases t.len() - j,
{
    if j < 0 || j >= t.len() {
        None
    } else {
        match t[j] {
            TokenTree::Ident(s) => match generics_end(t, j + 1) {
                Some(m) => if m > j && path_sep_at(t, m) && m + 2 < t.len() && t[m + 2] is Ident {
                    path_segments_from(t, m + 2, acc.push(s@))
                } else if m > j {
                    Some((acc.push(s@), m))
                } else {
                    None
                },
                None => None,
            },
            _ => None,
        }
    }
}

/// The path that starts at `i`, with or without a leading `::`.
pub open spec fn spec_path(t: Seq<TokenTree>, i: int) -> Option<(Seq<Seq<char>>, int)> {
    if path_sep_at(t, i) {
        path_segments_from(t, i + 2, Seq::empty())
    } else {
        path_segments_from(t, i, Seq::empty())
    }
}

/// The position where the type that starts at `i` ends. A type is a
/// reference `&['a] [mut] T`, a raw pointer `*const T` or `*mut T`, a
/// delimited group (a tuple, a parenthesized type, a slice or an array), the
/// never type `!`, a function pointer `[unsafe] [extern ["abi"]] fn(..)
/// [-> T]`, a trait object or opaque type `dyn Path` or `impl Path`, or a
/// path whose segments may carry generic arguments.
pub open spec fn type_end(t: Seq<TokenTree>, i: int) -> Option<int>
    decreases t.len() - i,
{
    if i < 0 || i >= t.len() {
        None
    } else if is_punct(t[i], '&') {
        let j = if i + 2 < t.len() && is_joint_punct(t[i + 1], '\'') && t[i + 2] is Ident {
            i + 3
        } else {
            i + 1
        };
        let k = if j < t.len() && is_word(t[j], "mut"@) {
            j + 1
        } else {
            j
        };
        type_end(t, k)
    } else if is_punct(t[i], '*') {
        if i + 1 < t.len() && (is_word(t[i + 1], "const"@) || is_word(t[i + 1], "mut"@)) {
            type_end(t, i + 2)
        } else {
            None
        }
    } else if t[i] is Group {
        match t[i] {
            TokenTree::Group(Delimiter::Parenthesis, _) => Some(i + 1),
            TokenTree::Group(Delimiter::Bracket, _) => Some(i + 1),
            _ => None,
        }
    } else if is_punct(t[i], '!') {
        Some(i + 1)
    } else if is_word(t[i], "unsafe"@) || is_word(t[i], "extern"@) || is_word(t[i], "fn"@) {
        let a = if is_word(t[i], "unsafe"@) {
            i + 1
        } else {
            i
        };
        let b = if a < t.len() && is_word(t[a], "extern"@) {
            if a + 1 < t.len() && t[a + 1] is Str {
                a + 2
            } else {
                a + 1
            }
        } else {
            a
        };
        if b + 1 < t.len() && is_word(t[b], "fn"@) && (t[b + 1] matches TokenTree::Group(
            Delimiter::Parenthesis,
            _,
        )) {
            if arrow_at(t, b + 2) {
                type_end(t, b + 4)
            } else {
                Some(b + 2)
            }
        } else {
            None
        }
    } else if is_word(t[i], "dyn"@) || is_word(t[i], "impl"@) {
        match spec_path(t, i + 1) {
            Some((_, e)) => Some(e),
            None => None,
        }
    } else {
        match spec_path(t, i) {
            Some((_, e)) => Some(e),
            None => None,
        }
    }
}

/// `->` starts at `i`.
pub open spec fn arrow_at(t: Seq<TokenTree>, i: int) -> bool {
    &&& 0 <= i && i + 1 < t.len()
    &&& is_joint_punct(t[i], '-')
    &&& is_punct(t[i + 1], '>')
}

proof fn lemma_angle_close_bounds(t: Seq<TokenTree>, j: int, d: int)
    requires
        0 <= j,
        angle_close(t, j, d) is Some,
    ensures
        j < angle_close(t, j, d).unwrap() <= t.len(),
    decreases t.len() - j,
{
    if is_punct(t[j], '<') {
        lemma_angle_close_bounds(t, j + 1, d + 1);
    } else if closing_angle(t, j) {
        if d != 1 {
            lemma_angle_close_bounds(t, j + 1, d - 1);
        }
    } else {
        lemma_angle_close_bounds(t, j + 1, d);
    }
}

proof fn lemma_path_bounds(t: Seq<TokenTree>, j: int, acc: Seq<Seq<char>>)
    requires
        0 <= j,
        path_segments_from(t, j, acc) is Some,
    ensures
        j < path_segments_from(t, j, acc).unwrap().1 <= t.len(),
    decreases t.len() - j,
{
    let k = j + 1;
    if 0 <= k < t.len() && is_punct(t[k], '<') {
        lemma_angle_close_bounds(t, k + 1, 1);
    } else if path_sep_at(t, k) && k + 2 < t.len() && is_punct(t[k + 2], '<') {
        lemma_angle_close_bounds(t, k + 3, 1);
    }
    let m = generics_end(t, j + 1).unwrap();
    match t[j] {
        TokenTree::Ident(s) => if path_sep_at(t, m) && m + 2 < t.len() && t[m + 2] is Ident {
            lemma_path_bounds(t, m + 2, acc.push(s@));
        },
        _ => {},
    }
}

/// A type ends after it starts, within the stream.
pub proof fn lemma_type_end_bounds(t: Seq<TokenTree>, i: int)
    requires
        0 <= i,
        type_end(t, i) is Some,
    ensures
        i < type_end(t, i).unwrap() <= t.len(),
    decreases t.len() - i,
{
    if is_punct(t[i], '&') {
        let j = if i + 2 < t.len() && is_joint_punct(t[i + 1], '\'') && t[i + 2] is Ident {
            i + 3
        } else {
            i + 1
        };
        let k = if j < t.len() && is_word(t[j], "mut"@) {
            j + 1
        } else {
            j
        };
        lemma_type_end_bounds(t, k);
    } else if is_punct(t[i], '*') {
        lemma_type_end_bounds(t, i + 2);
    } else if t[i] is Group || is_punct(t[i], '!') {
    } else if is_word(t[i], "unsafe"@) || is_word(t[i], "extern"@) || is_word(t[i], "fn"@) {
        let a = if is_word(t[i], "unsafe"@) {
            i + 1
        } else {
            i
        };
        let b = if a < t.len() && is_word(t[a], "extern"@) {
            if a + 1 < t.len() && t[a + 1] is Str {
                a + 2
            } else {
                a + 1
            }
        } else {
            a
        };
        if arrow_at(t, b + 2) {
            lemma_type_end_bounds(t, b + 4);
        }
    } else if is_word(t[i], "dyn"@) || is_word(t[i], "impl"@) {
        if path_sep_at(t, i + 1) {
            lemma_path_bounds(t, i + 3, Seq::empty());
        } else {
            lemma_path_bounds(t, i + 1, Seq::empty());
        }
    } else {
        if path_sep_at(t, i) {
            lemma_path_bounds(t, i + 2, Seq::empty());
        } else {
            lemma_path_bounds(t, i, Seq::empty());
        }
    }
}

fn path_sep(t: &[TokenTree], i: usize) -> (b: bool)
    ensures
        b == path_sep_at(t@, i as int),
{
    i < t.len() && t.len() - i > 1 && joint_punct_is(&t[i], ':') && punct_is(&t[i + 1], ':')
}

fn arrow(t: &[TokenTree], i: usize) -> (b: bool)
    ensures
        b == arrow_at(t@, i as int),
{
    i < t.len() && t.len() - i > 1 && joint_punct_is(&t[i], '-') && punct_is(&t[i + 1], '>')
}

fn find_angle_close(t: &[TokenTree], j: usize) -> (r: Option<usize>)
    requires
        j >= 1,
    ensures
        match r {
            Some(e) => angle_close(t@, j as int, 1) == Some(e as int),
            None => angle_close(t@, j as int, 1) is None,
        },
{
    let mut k: usize = j;
    let mut d: usize = 1;
    while k < t.len()
        invariant
            1 <= j <= k,
            1 <= d <= k - j + 1,
            angle_close(t@, k as int, d as int) == angle_close(t@, j as int, 1),
        decreases t@.len() - k,
    {
        if punct_is(&t[k], '<') {
            d = d + 1;
        } else if punct_is(&t[k], '>') && !(k > 0 && joint_punct_is(&t[k - 1], '-')) {
            if d == 1 {
                return Some(k + 1);
            }
            d = d - 1;
        }
        k = k + 1;
    }
    None
}

fn find_generics_end(t: &[TokenTree], k: usize) -> (r: Option<usize>)
    ensures
        match r {
            Some(e) => generics_end(t@, k as int) == Some(e as int),
            None => generics_end(t@, k as int) is None,
        },
{
    if k < t.len() && punct_is(&t[k], '<') {
        find_angle_close(t, k + 1)
    } else if path_sep(t, k) && t.len() - k > 2 && punct_is(&t[k + 2], '<') {
        find_angle_close(t, k + 3)
    } else {
        Some(k)
    }
}

/// Reads the path that starts at `i`: its identifiers and the position
/// after it.
fn parse_path(t: &[TokenTree], i: usize) -> (r: Option<(Vec<String>, usize)>)
    ensures
        match r {
            Some((segs, e)) => spec_path(t@, i as int) == Some((strings_view(segs@), e as int)),
            None => spec_path(t@, i as int) is None,
        },
{
    proof {
        assert(t.len() == t@.len());
    }
    let mut j: usize = if path_sep(t, i) {
        i + 2
    } else {
        i
    };
    let mut segs: Vec<String> = Vec::new();
    assert(strings_view(segs@) =~= Seq::<Seq<char>>::empty());
    loop
        invariant
            j >= i,
            path_segments_from(t@, j as int, strings_view(segs@)) == spec_path(t@, i as int),
        decreases t@.len() - j,
    {
        if j >= t.len() {
            return None;
        }
        let name = match &t[j] {
            TokenTree::Ident(name) => name,
            _ => return None,
        };
        let m = match find_generics_end(t, j + 1) {
            Some(m) => m,
            None => return None,
        };
        let ghost before = strings_view(segs@);
        segs.push(name.clone());
        proof {
            assert(strings_view(segs@) =~= before.push(name@));
        }
        if m <= j {
            return None;
        }
        if path_sep(t, m) && t.len() - m > 2 && (match &t[m + 2] {
            TokenTree::Ident(_) => true,
            _ => false,
        }) {
            j = m + 2;
        } else {
            return Some((segs, m));
        }
    }
}

/// Finds where the type that starts at `i` ends.
pub fn find_type_end(t: &[TokenTree], i: usize) -> (r: Option<usize>)
    ensures
        match r {
            Some(e) => type_end(t@, i as int) == Some(e as int),
            None => type_end(t@, i as int) is None,
        },
{
    let mut k: usize = i;
    loop
        invariant
            k >= i,
            type_end(t@, k as int) == type_end(t@, i as int),
        decreases t@.len() - k,
    {
        if k >= t.len() {
            return None;
        }
        if punct_is(&t[k], '&') {
            let j: usize = if t.len() - k > 2 && joint_punct_is(&t[k + 1], '\'') && (match &t[k
                + 2] {
                TokenTree::Ident(_) => true,
                _ => false,
            }) {
                k + 3
            } else {
                k + 1
            };
            k = if j < t.len() && word_is(&t[j], "mut") {
                j + 1
            } else {
                j
            };
        } else if punct_is(&t[k], '*') {
            if t.len() - k > 1 && (word_is(&t[k + 1], "const") || word_is(&t[k + 1], "mut")) {
                k = k + 2;
            } else {
                return None;
            }
        } else {
            match &t[k] {
                TokenTree::Group(Delimiter::Parenthesis, _) => return Some(k + 1),
                TokenTree::Group(Delimiter::Bracket, _) => return Some(k + 1),
                TokenTree::Group(_, _) => return None,
                _ => {},
            }
            if punct_is(&t[k], '!') {
                return Some(k + 1);
            }
            if word_is(&t[k], "unsafe") || word_is(&t[k], "extern") || word_is(&t[k], "fn") {
                let a: usize = if word_is(&t[k], "unsafe") {
                    k + 1
                } else {
                    k
                };
                let b: usize = if a < t.len() && word_is(&t[a], "extern") {
                    if t.len() - a > 1 && (match &t[a + 1] {
                        TokenTree::Str(_) => true,
                        _ => false,
                    }) {
                        a + 2
                    } else {
                        a + 1
                    }
                } else {
                    a
                };
                if b < t.len() && t.len() - b > 1 && word_is(&t[b], "fn") && (match &t[b + 1] {
                    TokenTree::Group(Delimiter::Parenthesis, _) => true,
                    _ => false,
                }) {
                    if arrow(t, b + 2) {
                        k = b + 4;
                    } else {
                        return Some(b + 2);
                    }
                } else {
                    return None;
                }
            } else if word_is(&t[k], "dyn") || word_is(&t[k], "impl") {
                return match parse_path(t, k + 1) {
                    Some((_, e)) => Some(e),
                    None => None,
                };
            } else {
                return match parse_path(t, k) {
                    Some((_, e)) => Some(e),
                    None => None,
                };
            }
        }
    }
}

// ---------------------------------------------------------------------------
// Parameters.
// ---------------------------------------------------------------------------

/// A parameter of a linked function, by the positions of its parts in the
/// parenthesized group.
#[derive(Clone, Copy, Debug, PartialEq, Eq)]
pub struct ArgSyntax {
    /// Whether it is a `self` parameter: its pattern ends with `self`.
    pub receiver: bool,
    pub pattern: Span,
    /// The type after a lone `:`; every parameter but `self` has one.
    pub ty: Option<Span>,
    /// The conversion after `as`.
    pub wrapper: Option<Span>,
}

pub open spec fn span(start: int, end: int) -> Span {
    Span { start: start as usize, end: end as usize }
}

/// The position after the outer attributes `#[..]` that start at `i`.
pub open spec fn attrs_end(t: Seq<TokenTree>, i: int) -> int
    decreases t.len() - i,
{
    if 0 <= i && i + 1 < t.len() && is_punct(t[i], '#') && (t[i + 1] matches TokenTree::Group(
        Delimiter::Bracket,
        _,
    )) {
        attrs_end(t, i + 2)
    } else {
        i
    }
}

proof fn lemma_attrs_end_bounds(t: Seq<TokenTree>, i: int)
    requires
        0 <= i <= t.len(),
    ensures
        i <= attrs_end(t, i) <= t.len(),
    decreases t.len() - i,
{
    if i + 1 < t.len() && is_punct(t[i], '#') && (t[i + 1] matches TokenTree::Group(
        Delimiter::Bracket,
        _,
    )) {
        lemma_attrs_end_bounds(t, i + 2);
    }
}

fn skip_attrs(t: &[TokenTree], i: usize) -> (a: usize)
    requires
        i <= t@.len(),
    ensures
        a == attrs_end(t@, i as int),
{
    let mut k: usize = i;
    while k < t.len() && t.len() - k > 1 && punct_is(&t[k], '#') && bracket_group_is(&t[k + 1])
        invariant
            i <= k <= t@.len(),
            attrs_end(t@, k as int) == attrs_end(t@, i as int),
        decreases t@.len() - k,
    {
        k = k + 2;
    }
    k
}

fn bracket_group_is(t: &TokenTree) -> (b: bool)
    ensures
        b == (*t matches TokenTree::Group(Delimiter::Bracket, _)),
{
    match t {
        TokenTree::Group(Delimiter::Bracket, _) => true,
        _ => false,
    }
}

/// The parameter that starts at `i`, and the position after it (a `,` or
/// the end of the group).
pub open spec fn spec_arg(t: Seq<TokenTree>, i: int) -> Option<(ArgSyntax, int)> {
    let a = attrs_end(t, i);
    let p = run_end(t, a, RunKind::Pattern);
    let pat = t.subrange(a, p);
    let receiver = receiver_form(pat);
    let has_type = p < t.len() && lone_colon(t, p);
    let q_opt = if has_type {
        type_end(t, p + 1)
    } else {
        Some(p)
    };
    let q = match q_opt {
        Some(q) => q,
        None => p,
    };
    let type_ok = q_opt is Some && (q == t.len() || is_punct(t[q], ',') || is_word(t[q], "as"@));
    let has_wrapper = q < t.len() && is_word(t[q], "as"@);
    let w = if has_wrapper {
        run_end(t, q + 1, RunKind::ArgWrapper)
    } else {
        q
    };
    if p == a || !pattern_form(pat) || !type_ok || (!has_type && !receiver) || (has_wrapper && w
        == q + 1) {
        None
    } else {
        Some(
            (
                ArgSyntax {
                    receiver,
                    pattern: span(a, p),
                    ty: if has_type {
                        Some(span(p + 1, q))
                    } else {
                        None
                    },
                    wrapper: if has_wrapper {
                        Some(span(q + 1, w))
                    } else {
                        None
                    },
                },
                w,
            ),
        )
    }
}

/// `...` starts at `i`.
pub open spec fn ellipsis_at(t: Seq<TokenTree>, i: int) -> bool {
    &&& i + 2 < t.len()
    &&& is_joint_punct(t[i], '.')
    &&& is_joint_punct(t[i + 1], '.')
    &&& is_punct(t[i + 2], '.')
}

/// The parameters from `i` on, after those in `acc`, and whether the list
/// ends with `...`.
pub open spec fn spec_args(t: Seq<TokenTree>, i: int, acc: Seq<ArgSyntax>) -> Option<
    (Seq<ArgSyntax>, bool),
>
    decreases t.len() - i,
{
    if i < 0 || i >= t.len() {
        Some((acc, false))
    } else if ellipsis_at(t, i) {
        if i + 3 == t.len() {
            Some((acc, true))
        } else {
            None
        }
    } else {
        match spec_arg(t, i) {
            None => None,
            Some((a, e)) => if e <= i || e >= t.len() {
                Some((acc.push(a), false))
            } else {
                spec_args(t, e + 1, acc.push(a))
            },
        }
    }
}

/// A parameter ends after it starts, at the end of the group or at a `,`.
proof fn lemma_arg_end(t: Seq<TokenTree>, i: int)
    requires
        0 <= i < t.len(),
        spec_arg(t, i) is Some,
    ensures
        i < spec_arg(t, i).unwrap().1 <= t.len(),
        spec_arg(t, i).unwrap().1 < t.len() ==> is_punct(t[spec_arg(t, i).unwrap().1], ','),
{
    let a = attrs_end(t, i);
    lemma_attrs_end_bounds(t, i);
    let p = run_end(t, a, RunKind::Pattern);
    lemma_run_end_bounds(t, a, RunKind::Pattern);
    let q = if p < t.len() && lone_colon(t, p) {
        lemma_type_end_bounds(t, p + 1);
        type_end(t, p + 1).unwrap()
    } else {
        p
    };
    if q < t.len() && is_word(t[q], "as"@) {
        lemma_run_end_bounds(t, q + 1, RunKind::ArgWrapper);
    }
}

fn parse_arg(t: &[TokenTree], i: usize) -> (r: Option<(ArgSyntax, usize)>)
    requires
        i < t@.len(),
    ensures
        match r {
            Some((a, e)) => spec_arg(t@, i as int) == Some((a, e as int)),
            None => spec_arg(t@, i as int) is None,
        },
{
    let a = skip_attrs(t, i);
    proof {
        lemma_attrs_end_bounds(t@, i as int);
    }
    let p = find_run_end(t, a, RunKind::Pattern);
    proof {
        lemma_run_end_bounds(t@, a as int, RunKind::Pattern);
    }
    let pat = &t[a..p];
    assert(pat@ =~= t@.subrange(a as int, p as int));
    let receiver = receiver_is_form(pat);
    let has_type = p < t.len() && ends_run(t, p, RunKind::Pattern) && !punct_is(&t[p], ',')
        && !word_is(&t[p], "as");
    let q = if has_type {
        match find_type_end(t, p + 1) {
            Some(q) => q,
            None => return None,
        }
    } else {
        p
    };
    proof {
        if has_type {
            lemma_type_end_bounds(t@, p + 1);
        }
    }
    let type_ok = q == t.len() || punct_is(&t[q], ',') || word_is(&t[q], "as");
    let has_wrapper = q < t.len() && word_is(&t[q], "as");
    let w = if has_wrapper {
        find_run_end(t, q + 1, RunKind::ArgWrapper)
    } else {
        q
    };
    if p == a || !pattern_is_form(pat) || !type_ok || (!has_type && !receiver) || (has_wrapper
        && w == q + 1) {
        return None;
    }
    let a = ArgSyntax {
        receiver,
        pattern: Span { start: a, end: p },
        ty: if has_type {
            Some(Span { start: p + 1, end: q })
        } else {
            None
        },
        wrapper: if has_wrapper {
            Some(Span { start: q + 1, end: w })
        } else {
            None
        },
    };
    Some((a, w))
}

fn ellipsis(t: &[TokenTree], i: usize) -> (b: bool)
    requires
        i <= t@.len(),
    ensures
        b == ellipsis_at(t@, i as int),
{
    i < t.len() && t.len() - i > 2 && joint_punct_is(&t[i], '.') && joint_punct_is(&t[i + 1], '.') && punct_is(
        &t[i + 2],
        '.',
    )
}

/// Parses the parameter list of a linked function: the parameters and
/// whether the list ends with `...`, or `None` when the group does not
/// follow the grammar.
pub fn parse_args(t: &[TokenTree]) -> (r: Option<(Vec<ArgSyntax>, bool)>)
    ensures
        match r {
            Some((args, variadic)) => spec_args(t@, 0, Seq::empty()) == Some((args@, variadic)),
            None => spec_args(t@, 0, Seq::empty()) is None,
        },
{
    let mut args: Vec<ArgSyntax> = Vec::new();
    let mut i: usize = 0;
    while i < t.len()
        invariant
            i <= t@.len(),
            spec_args(t@, i as int, args@) == spec_args(t@, 0, Seq::empty()),
        decreases t@.len() - i,
    {
        if ellipsis(t, i) {
            if i + 3 == t.len() {
                return Some((args, true));
            } else {
                return None;
            }
        }
        match parse_arg(t, i) {
            None => return None,
            Some((a, e)) => {
                proof {
                    lemma_arg_end(t@, i as int);
                }
                args.push(a);
                if e >= t.len() {
                    return Some((args, false));
                }
                i = e + 1;
            },
        }
    }
    Some((args, false))
}

// ---------------------------------------------------------------------------
// Functions and the whole invocation.
// ---------------------------------------------------------------------------

/// A return type and its conversion, by positions in the module body.
#[derive(Clone, Copy, Debug, PartialEq, Eq)]
pub struct ReturnSyntax {
    pub ty: Span,
    pub wrapper: Option<Span>,
}

/// A function of the module body.
#[derive(Debug)]
pub struct ItemSyntax {
    pub printf: bool,
    /// The function's name, as written.
    pub name: String,
    /// The position of the parenthesized parameter group in the body.
    pub params: usize,
    pub args: Vec<ArgSyntax>,
    /// Whether the parameters end with `...`.
    pub variadic: bool,
    pub ret: Option<ReturnSyntax>,
}

/// The model of a function of the module body.
pub struct ItemSyntaxView {
    pub printf: bool,
    pub name: Seq<char>,
    pub params: int,
    pub args: Seq<ArgSyntax>,
    pub variadic: bool,
    pub ret: Option<ReturnSyntax>,
}

impl View for ItemSyntax {
    type V = ItemSyntaxView;

    open spec fn view(&self) -> ItemSyntaxView {
        ItemSyntaxView {
            printf: self.printf,
            name: self.name@,
            params: self.params as int,
            args: self.args@,
            variadic: self.variadic,
            ret: self.ret,
        }
    }
}

/// The return part of a function whose parameter group ends before `r`,
/// and the position after it.
pub open spec fn spec_return(b: Seq<TokenTree>, r: int) -> Option<(Option<ReturnSyntax>, int)> {
    if !arrow_at(b, r) {
        Some((None, r))
    } else {
        match type_end(b, r + 2) {
            None => None,
            Some(e) => {
                let has_wrapper = e < b.len() && is_word(b[e], "as"@);
                let w = if has_wrapper {
                    run_end(b, e + 1, RunKind::ReturnWrapper)
                } else {
                    e
                };
                if !(e == b.len() || is_punct(b[e], ';') || has_wrapper) || (has_wrapper && w == e
                    + 1) {
                    None
                } else {
                    Some(
                        (
                            Some(
                                ReturnSyntax {
                                    ty: span(r + 2, e),
                                    wrapper: if has_wrapper {
                                        Some(span(e + 1, w))
                                    } else {
                                        None
                                    },
                                },
                            ),
                            w,
                        ),
                    )
                }
            },
        }
    }
}

/// The function that starts at `i` of the module body, and the position
/// after it.
pub open spec fn spec_item(b: Seq<TokenTree>, i: int) -> Option<(ItemSyntaxView, int)> {
    let printf = 0 <= i < b.len() && is_word(b[i], "printf"@);
    let k = if printf {
        i + 1
    } else {
        i
    };
    if !(0 <= k && k + 2 < b.len()) || !is_word(b[k], "fn"@) {
        None
    } else {
        match b[k + 1] {
            TokenTree::Ident(name) => if is_keyword(name@) {
                None
            } else {
                match b[k + 2] {
                    TokenTree::Group(Delimiter::Parenthesis, inner) => match spec_args(
                        inner@,
                        0,
                        Seq::empty(),
                    ) {
                        Some((args, variadic)) => match spec_return(b, k + 3) {
                            Some((ret, e)) => Some(
                                (
                                    ItemSyntaxView {
                                        printf,
                                        name: name@,
                                        params: k + 2,
                                        args,
                                        variadic,
                                        ret,
                                    },
                                    e,
                                ),
                            ),
                            None => None,
                        },
                        None => None,
                    },
                    _ => None,
                }
            },
            _ => None,
        }
    }
}

/// The functions of the module body from `i` on, after those in `acc`;
/// each is followed by `;`.
pub open spec fn spec_items(b: Seq<TokenTree>, i: int, acc: Seq<ItemSyntaxView>) -> Option<
    Seq<ItemSyntaxView>,
>
    decreases b.len() - i,
{
    if i < 0 || i >= b.len() {
        Some(acc)
    } else {
        match spec_item(b, i) {
            Some((it, e)) => if i < e < b.len() && is_punct(b[e], ';') {
                spec_items(b, e + 1, acc.push(it))
            } else {
                None
            },
            None => None,
        }
    }
}

proof fn lemma_return_end(b: Seq<TokenTree>, r: int)
    requires
        0 <= r <= b.len(),
        b.len() <= usize::MAX,
        spec_return(b, r) is Some,
    ensures
        r <= spec_return(b, r).unwrap().1 <= b.len(),
        spec_return(b, r).unwrap().0 matches Some(ret) ==> span_within(ret.ty, b.len() as int)
            && (ret.wrapper matches Some(w) ==> span_within(w, b.len() as int)),
{
    if arrow_at(b, r) {
        lemma_type_end_bounds(b, r + 2);
        let e = type_end(b, r + 2).unwrap();
        if e < b.len() && is_word(b[e], "as"@) {
            lemma_run_end_bounds(b, e + 1, RunKind::ReturnWrapper);
        }
    }
}

fn parse_return(b: &[TokenTree], r: usize) -> (res: Option<(Option<ReturnSyntax>, usize)>)
    requires
        r <= b@.len(),
    ensures
        match res {
            Some((ret, e)) => spec_return(b@, r as int) == Some((ret, e as int)),
            None => spec_return(b@, r as int) is None,
        },
{
    proof {
        assert(b.len() == b@.len());
    }
    if !arrow(b, r) {
        return Some((None, r));
    }
    let e = match find_type_end(b, r + 2) {
        Some(e) => e,
        None => return None,
    };
    proof {
        lemma_type_end_bounds(b@, r + 2);
    }
    let has_wrapper = e < b.len() && word_is(&b[e], "as");
    let w = if has_wrapper {
        find_run_end(b, e + 1, RunKind::ReturnWrapper)
    } else {
        e
    };
    if !(e == b.len() || punct_is(&b[e], ';') || has_wrapper) || (has_wrapper && w == e + 1) {
        return None;
    }
    let ret = ReturnSyntax {
        ty: Span { start: r + 2, end: e },
        wrapper: if has_wrapper {
            Some(Span { start: e + 1, end: w })
        } else {
            None
        },
    };
    Some((Some(ret), w))
}

fn parse_item(b: &[TokenTree], i: usize) -> (res: Option<(ItemSyntax, usize)>)
    requires
        i < b@.len(),
    ensures
        match res {
            Some((it, e)) => spec_item(b@, i as int) == Some((it@, e as int)),
            None => spec_item(b@, i as int) is None,
        },
{
    let printf = word_is(&b[i], "printf");
    let k: usize = if printf {
        i + 1
    } else {
        i
    };
    if !(k < b.len() && b.len() - k > 2) || !word_is(&b[k], "fn") {
        return None;
    }
    let name = match &b[k + 1] {
        TokenTree::Ident(name) => name,
        _ => return None,
    };
    if keyword(name.as_str()) {
        return None;
    }
    let inner = match &b[k + 2] {
        TokenTree::Group(Delimiter::Parenthesis, inner) => inner,
        _ => return None,
    };
    let (args, variadic) = match parse_args(inner.as_slice()) {
        Some(parsed) => parsed,
        None => return None,
    };
    let (ret, e) = match parse_return(b, k + 3) {
        Some(parsed) => parsed,
        None => return None,
    };
    let it = ItemSyntax { printf, name: name.clone(), params: k + 2, args, variadic, ret };
    Some((it, e))
}

/// Parses the body of a module: its functions, each followed by `;`, or
/// `None` when the body does not follow the grammar.
pub fn parse_items(b: &[TokenTree]) -> (r: Option<Vec<ItemSyntax>>)
    ensures
        match r {
            Some(items) => spec_items(b@, 0, Seq::empty()) == Some(items@.map_values(
                |it: ItemSyntax| it@,
            )),
            None => spec_items(b@, 0, Seq::empty()) is None,
        },
{
    let mut items: Vec<ItemSyntax> = Vec::new();
    let mut i: usize = 0;
    assert(items@.map_values(|it: ItemSyntax| it@) =~= Seq::<ItemSyntaxView>::empty());
    while i < b.len()
        invariant
            i <= b@.len(),
            spec_items(b@, i as int, items@.map_values(|it: ItemSyntax| it@)) == spec_items(
                b@,
                0,
                Seq::empty(),
            ),
        decreases b@.len() - i,
    {
        match parse_item(b, i) {
            Some((it, e)) => {
                if !(i < e && e < b.len() && punct_is(&b[e], ';')) {
                    return None;
                }
                let ghost before = items@.map_values(|x: ItemSyntax| x@);
                let ghost v = it@;
                items.push(it);
                proof {
                    assert(items@.map_values(|x: ItemSyntax| x@) =~= before.push(v));
                }
                i = e + 1;
            },
            None => return None,
        }
    }
    proof {
        assert(spec_items(b@, i as int, items@.map_values(|it: ItemSyntax| it@)) == Some(
            items@.map_values(|it: ItemSyntax| it@),
        ));
    }
    Some(items)
}

/// A whole `link!` invocation, by positions in the token stream.
#[derive(Debug)]
pub struct CallSyntax {
    /// The expression for the module instance.
    pub instance: Span,
    /// The expression for the store.
    pub store: Span,
    /// The value of the module name literal.
    pub module_name: String,
    /// The functions of the module body (the last token of the stream).
    pub items: Vec<ItemSyntax>,
}

/// The model of a whole invocation.
pub struct CallSyntaxView {
    pub instance: Span,
    pub store: Span,
    pub module_name: Seq<char>,
    pub items: Seq<ItemSyntaxView>,
}

impl View for CallSyntax {
    type V = CallSyntaxView;

    open spec fn view(&self) -> CallSyntaxView {
        CallSyntaxView {
            instance: self.instance,
            store: self.store,
            module_name: self.module_name@,
            items: self.items@.map_values(|it: ItemSyntax| it@),
        }
    }
}

/// The grammar of a whole invocation: two expressions, each followed by
/// `,`, then `mod`, the module name and the braced module body, and
/// nothing after it.
pub open spec fn spec_call(t: Seq<TokenTree>) -> Option<CallSyntaxView> {
    let a = run_end(t, 0, RunKind::CallExpr);
    let s = run_end(t, a + 1, RunKind::CallExpr);
    if a == 0 || a >= t.len() || s == a + 1 || s + 4 != t.len() || !is_word(t[s + 1], "mod"@) {
        None
    } else {
        match (t[s + 2], t[s + 3]) {
            (TokenTree::Str(name), TokenTree::Group(Delimiter::Brace, body)) => match spec_items(
                body@,
                0,
                Seq::empty(),
            ) {
                Some(items) => Some(
                    CallSyntaxView {
                        instance: span(0, a),
                        store: span(a + 1, s),
                        module_name: name@,
                        items,
                    },
                ),
                None => None,
            },
            _ => None,
        }
    }
}

/// Parses a `link!` invocation, or returns `None` when its tokens do not
/// follow the grammar (the macro then reports a compile error).
pub fn parse_call(t: &[TokenTree]) -> (r: Option<CallSyntax>)
    ensures
        match r {
            Some(c) => spec_call(t@) == Some(c@),
            None => spec_call(t@) is None,
        },
{
    let a = find_run_end(t, 0, RunKind::CallExpr);
    proof {
        lemma_run_end_bounds(t@, 0, RunKind::CallExpr);
    }
    if a == 0 || a >= t.len() {
        return None;
    }
    let s = find_run_end(t, a + 1, RunKind::CallExpr);
    proof {
        lemma_run_end_bounds(t@, a + 1, RunKind::CallExpr);
    }
    if s == a + 1 || s >= t.len() || t.len() - s != 4 || !word_is(&t[s + 1], "mod") {
        return None;
    }
    let name = match &t[s + 2] {
        TokenTree::Str(name) => name,
        _ => return None,
    };
    let body = match &t[s + 3] {
        TokenTree::Group(Delimiter::Brace, body) => body,
        _ => return None,
    };
    let items = match parse_items(body.as_slice()) {
        Some(items) => items,
        None => return None,
    };
    Some(
        CallSyntax {
            instance: Span { start: 0, end: a },
            store: Span { start: a + 1, end: s },
            module_name: name.clone(),
            items,
        },
    )
}

// ---------------------------------------------------------------------------
// Where the parts lie.
// ---------------------------------------------------------------------------

pub open spec fn span_within(s: Span, len: int) -> bool {
    s.start <= s.end <= len
}

/// The spans of a parameter lie within a group of `len` tokens.
pub open spec fn arg_placed(a: ArgSyntax, len: int) -> bool {
    &&& span_within(a.pattern, len)
    &&& (a.ty matches Some(s) ==> span_within(s, len))
    &&& (a.wrapper matches Some(s) ==> span_within(s, len))
}

/// A function of the body `b` has its parameter group where it says, its
/// parameters are those of that group, and its spans lie within.
pub open spec fn item_placed(it: ItemSyntaxView, b: Seq<TokenTree>) -> bool {
    &&& 0 <= it.params < b.len()
    &&& match b[it.params] {
        TokenTree::Group(Delimiter::Parenthesis, inner) => {
            &&& spec_args(inner@, 0, Seq::empty()) == Some((it.args, it.variadic))
            &&& forall|j: int| 0 <= j < it.args.len() ==> arg_placed(#[trigger] it.args[j], inner@.len() as int)
        },
        _ => false,
    }
    &&& (it.ret matches Some(r) ==> span_within(r.ty, b.len() as int) && (r.wrapper matches Some(
        w,
    ) ==> span_within(w, b.len() as int)))
}

proof fn lemma_args_placed(t: Seq<TokenTree>, i: int, acc: Seq<ArgSyntax>)
    requires
        0 <= i,
        t.len() <= usize::MAX,
        spec_args(t, i, acc) is Some,
        forall|j: int| 0 <= j < acc.len() ==> arg_placed(#[trigger] acc[j], t.len() as int),
    ensures
        forall|j: int|
            0 <= j < spec_args(t, i, acc).unwrap().0.len() ==> arg_placed(
                #[trigger] spec_args(t, i, acc).unwrap().0[j],
                t.len() as int,
            ),
    decreases t.len() - i,
{
    if i < t.len() && !ellipsis_at(t, i) {
        let (a, e) = spec_arg(t, i).unwrap();
        lemma_arg_end(t, i);
        let at = attrs_end(t, i);
        lemma_attrs_end_bounds(t, i);
        let p = run_end(t, at, RunKind::Pattern);
        lemma_run_end_bounds(t, at, RunKind::Pattern);
        let q = if p < t.len() && lone_colon(t, p) {
            lemma_type_end_bounds(t, p + 1);
            type_end(t, p + 1).unwrap()
        } else {
            p
        };
        if q < t.len() && is_word(t[q], "as"@) {
            lemma_run_end_bounds(t, q + 1, RunKind::ArgWrapper);
        }
        assert(arg_placed(a, t.len() as int));
        let next = acc.push(a);
        assert forall|j: int| 0 <= j < next.len() implies arg_placed(#[trigger] next[j], t.len() as int) by {
            if j < acc.len() {
                assert(next[j] == acc[j]);
            }
        }
        if e < t.len() {
            lemma_args_placed(t, e + 1, next);
        }
    }
}

proof fn lemma_item_placed(b: Seq<TokenTree>, i: int)
    requires
        0 <= i < b.len(),
        b.len() <= usize::MAX,
        spec_item(b, i) is Some,
    ensures
        item_placed(spec_item(b, i).unwrap().0, b),
        i < spec_item(b, i).unwrap().1 <= b.len(),
{
    let printf = is_word(b[i], "printf"@);
    let k = if printf {
        i + 1
    } else {
        i
    };
    let it = spec_item(b, i).unwrap().0;
    match b[k + 2] {
        TokenTree::Group(Delimiter::Parenthesis, inner) => {
            assert(inner.len() == inner@.len());
            lemma_args_placed(inner@, 0, Seq::empty());
        },
        _ => {},
    }
    lemma_return_end(b, k + 3);
}

proof fn lemma_items_placed(b: Seq<TokenTree>, i: int, acc: Seq<ItemSyntaxView>)
    requires
        0 <= i,
        b.len() <= usize::MAX,
        spec_items(b, i, acc) is Some,
        forall|j: int| 0 <= j < acc.len() ==> item_placed(#[trigger] acc[j], b),
    ensures
        forall|j: int|
            0 <= j < spec_items(b, i, acc).unwrap().len() ==> item_placed(
                #[trigger] spec_items(b, i, acc).unwrap()[j],
                b,
            ),
    decreases b.len() - i,
{
    if i < b.len() {
        let (it, e) = spec_item(b, i).unwrap();
        lemma_item_placed(b, i);
        let next = acc.push(it);
        assert forall|j: int| 0 <= j < next.len() implies item_placed(#[trigger] next[j], b) by {
            if j < acc.len() {
                assert(next[j] == acc[j]);
            }
        }
        lemma_items_placed(b, e + 1, next);
    }
}

// ---------------------------------------------------------------------------
// From the syntax to the parsed input the description and the closures are
// made from.
// ---------------------------------------------------------------------------

/// The tokens a span covers.
pub open spec fn run_of(t: Seq<TokenTree>, s: Span) -> Seq<TokenTree> {
    t.subrange(s.start as int, s.end as int)
}

/// The shape of the type (or the conversion) written with the tokens `r`:
/// a path, by the identifiers of its segments (a leading `::` and generic
/// arguments dropped), when the tokens are exactly a path.
pub open spec fn type_view_of(r: Seq<TokenTree>) -> TypeShapeView {
    match spec_path(r, 0) {
        Some((segments, e)) => if e == r.len() {
            TypeShapeView::Path(segments)
        } else {
            TypeShapeView::Other
        },
        None => TypeShapeView::Other,
    }
}

/// A `self` parameter: `self`, `mut self`, `&self`, `&mut self`, `&'a self`
/// or `&'a mut self`.
pub open spec fn receiver_form(r: Seq<TokenTree>) -> bool {
    let n = r.len();
    &&& n >= 1
    &&& is_word(r[n - 1], "self"@)
    &&& {
        ||| n == 1
        ||| n == 2 && (is_word(r[0], "mut"@) || is_punct(r[0], '&'))
        ||| n == 3 && is_punct(r[0], '&') && is_word(r[1], "mut"@)
        ||| n == 4 && is_punct(r[0], '&') && is_joint_punct(r[1], '\'') && r[2] is Ident
        ||| n == 5 && is_punct(r[0], '&') && is_joint_punct(r[1], '\'') && r[2] is Ident
            && is_word(r[3], "mut"@)
    }
}

/// The patterns a parameter may have: a `self` parameter, `_`,
/// `[ref] [mut] name`, a tuple or slice pattern, or a path, possibly
/// followed by the group of a tuple-struct or struct pattern.
pub open spec fn pattern_form(r: Seq<TokenTree>) -> bool {
    ||| receiver_form(r)
    ||| r.len() == 1 && is_word(r[0], "_"@)
    ||| pattern_name(r) is Some
    ||| r.len() == 1 && r[0] is Group
    ||| (spec_path(r, 0) matches Some((_, e)) && (e == r.len() || (e + 1 == r.len()
        && r[e] is Group)))
}

/// The identifier a pattern binds when it is `[ref] [mut] name`.
pub open spec fn pattern_name(r: Seq<TokenTree>) -> Option<Seq<char>> {
    let k = if r.len() >= 1 && is_word(r[0], "ref"@) {
        1int
    } else {
        0int
    };
    let m = if r.len() >= k + 1 && is_word(r[k], "mut"@) {
        k + 1
    } else {
        k
    };
    if r.len() == m + 1 {
        match r[m] {
            TokenTree::Ident(s) => if is_keyword(s@) {
                None
            } else {
                Some(s@)
            },
            _ => None,
        }
    } else {
        None
    }
}

pub open spec fn pat_name_of(p: PatShape) -> Option<Seq<char>> {
    match p {
        PatShape::Ident(n) => Some(n@),
        PatShape::Other => None,
    }
}

pub open spec fn describes_wrapper(w: Option<TypeShape>, t: Seq<TokenTree>, s: Option<Span>) -> bool {
    match (w, s) {
        (None, None) => true,
        (Some(w), Some(s)) => w@ == type_view_of(run_of(t, s)),
        _ => false,
    }
}

/// `a` is the parameter written at `s` in the parameter group `inner`.
pub open spec fn describes_arg(a: LinkItemArg, inner: Seq<TokenTree>, s: ArgSyntax) -> bool {
    &&& match a.fn_arg {
        FnArgShape::Receiver => s.receiver,
        FnArgShape::Typed(pat, ty) => {
            &&& !s.receiver
            &&& s.ty is Some
            &&& pat_name_of(pat) == pattern_name(run_of(inner, s.pattern))
            &&& ty@ == type_view_of(run_of(inner, s.ty.unwrap()))
        },
    }
    &&& describes_wrapper(a.wrapper, inner, s.wrapper)
}

/// `f` is the function `it` of the module body `b`.
pub open spec fn describes_func(f: LinkFunc, b: Seq<TokenTree>, it: ItemSyntaxView) -> bool {
    &&& f.printfness == it.printf
    &&& f.ident@ == it.name
    &&& 0 <= it.params < b.len()
    &&& match b[it.params] {
        TokenTree::Group(_, inner) => {
            &&& f.inputs@.len() == it.args.len()
            &&& forall|j: int|
                0 <= j < it.args.len() ==> describes_arg(#[trigger] f.inputs@[j], inner@, it.args[j])
        },
        _ => false,
    }
    &&& match (f.output, it.ret) {
        (LinkItemReturnType::Default, None) => true,
        (LinkItemReturnType::Type { return_type, wrapper }, Some(r)) => {
            &&& return_type@ == type_view_of(run_of(b, r.ty))
            &&& describes_wrapper(wrapper, b, r.wrapper)
        },
        _ => false,
    }
}

/// `c` is the invocation `s` of the tokens `t`: its module name, and its
/// functions in order.
pub open spec fn describes_call(c: LinkCall, t: Seq<TokenTree>, s: CallSyntaxView) -> bool {
    &&& c.module_name@ == s.module_name
    &&& t.len() > 0
    &&& match t.last() {
        TokenTree::Group(_, body) => {
            &&& c.module_items@.len() == s.items.len()
            &&& forall|k: int|
                0 <= k < s.items.len() ==> match #[trigger] c.module_items@[k] {
                    LinkItem::Func(f) => describes_func(f, body@, s.items[k]),
                    LinkItem::Enum(_) => false,
                }
        },
        _ => false,
    }
}

/// The shape of the type written with the tokens `r`.
pub fn type_shape(r: &[TokenTree]) -> (ts: TypeShape)
    ensures
        ts@ == type_view_of(r@),
{
    match parse_path(r, 0) {
        Some((segments, e)) => if e == r.len() {
            TypeShape::Path(segments)
        } else {
            TypeShape::Other
        },
        None => TypeShape::Other,
    }
}

fn receiver_is_form(r: &[TokenTree]) -> (b: bool)
    ensures
        b == receiver_form(r@),
{
    let n = r.len();
    if n == 0 || !word_is(&r[n - 1], "self") {
        return false;
    }
    let is_ident2 = n >= 3 && (match &r[2] {
        TokenTree::Ident(_) => true,
        _ => false,
    });
    n == 1 || (n == 2 && (word_is(&r[0], "mut") || punct_is(&r[0], '&'))) || (n == 3 && punct_is(
        &r[0],
        '&',
    ) && word_is(&r[1], "mut")) || (n == 4 && punct_is(&r[0], '&') && joint_punct_is(&r[1], '\'')
        && is_ident2) || (n == 5 && punct_is(&r[0], '&') && joint_punct_is(&r[1], '\'')
        && is_ident2 && word_is(&r[3], "mut"))
}

fn pattern_is_form(r: &[TokenTree]) -> (b: bool)
    ensures
        b == pattern_form(r@),
{
    if receiver_is_form(r) {
        return true;
    }
    if r.len() == 1 && word_is(&r[0], "_") {
        return true;
    }
    match pattern_shape(r) {
        PatShape::Ident(_) => return true,
        PatShape::Other => {},
    }
    if r.len() == 1 && (match &r[0] {
        TokenTree::Group(_, _) => true,
        _ => false,
    }) {
        return true;
    }
    match parse_path(r, 0) {
        Some((_, e)) => e == r.len() || (e < r.len() && r.len() - e == 1 && (match &r[e] {
            TokenTree::Group(_, _) => true,
            _ => false,
        })),
        None => false,
    }
}

/// The shape of the pattern written with the tokens `r`.
pub fn pattern_shape(r: &[TokenTree]) -> (p: PatShape)
    ensures
        pat_name_of(p) == pattern_name(r@),
{
    let k: usize = if r.len() >= 1 && word_is(&r[0], "ref") {
        1
    } else {
        0
    };
    let m: usize = if r.len() > k && word_is(&r[k], "mut") {
        k + 1
    } else {
        k
    };
    if r.len() == m + 1 {
        match &r[m] {
            TokenTree::Ident(s) => if keyword(s.as_str()) {
                PatShape::Other
            } else {
                PatShape::Ident(s.clone())
            },
            _ => PatShape::Other,
        }
    } else {
        PatShape::Other
    }
}

fn wrapper_shape(t: &[TokenTree], s: Option<Span>) -> (w: Option<TypeShape>)
    requires
        s matches Some(s) ==> span_within(s, t@.len() as int),
    ensures
        describes_wrapper(w, t@, s),
{
    match s {
        Some(s) => {
            let r = &t[s.start..s.end];
            assert(r@ =~= run_of(t@, s));
            Some(type_shape(r))
        },
        None => None,
    }
}

fn func_of(b: &[TokenTree], it: &ItemSyntax) -> (f: LinkFunc)
    requires
        item_placed(it@, b@),
    ensures
        describes_func(f, b@, it@),
{
    let inner = match &b[it.params] {
        TokenTree::Group(Delimiter::Parenthesis, inner) => inner.as_slice(),
        _ => {
            proof {
                assert(false);
            }
            return LinkFunc {
                printfness: false,
                ident: String::new(),
                inputs: Vec::new(),
                output: LinkItemReturnType::Default,
            };
        },
    };
    let mut inputs: Vec<LinkItemArg> = Vec::new();
    let mut j: usize = 0;
    while j < it.args.len()
        invariant
            item_placed(it@, b@),
            b@[it.params as int] matches TokenTree::Group(Delimiter::Parenthesis, g) && g@ == inner@,
            j <= it.args@.len(),
            inputs@.len() == j,
            forall|k: int| 0 <= k < j ==> describes_arg(#[trigger] inputs@[k], inner@, it.args@[k]),
        decreases it.args@.len() - j,
    {
        let a = it.args[j];
        assert(arg_placed(it.args@[j as int], inner@.len() as int));
        let fn_arg = if a.receiver {
            FnArgShape::Receiver
        } else {
            match a.ty {
                Some(ty) => {
                    let pr = &inner[a.pattern.start..a.pattern.end];
                    assert(pr@ =~= run_of(inner@, a.pattern));
                    let tr = &inner[ty.start..ty.end];
                    assert(tr@ =~= run_of(inner@, ty));
                    FnArgShape::Typed(pattern_shape(pr), type_shape(tr))
                },
                None => {
                    proof {
                        lemma_typed_args_have_types(it@, b@, j as int);
                    }
                    FnArgShape::Receiver
                },
            }
        };
        let wrapper = wrapper_shape(inner, a.wrapper);
        inputs.push(LinkItemArg { fn_arg, wrapper });
        j = j + 1;
    }
    let output = match it.ret {
        None => LinkItemReturnType::Default,
        Some(r) => {
            let tr = &b[r.ty.start..r.ty.end];
            assert(tr@ =~= run_of(b@, r.ty));
            LinkItemReturnType::Type { return_type: type_shape(tr), wrapper: wrapper_shape(b, r.wrapper) }
        },
    };
    LinkFunc { printfness: it.printf, ident: it.name.clone(), inputs, output }
}

/// Every parameter that is not `self` has a type.
proof fn lemma_typed_args_have_types(it: ItemSyntaxView, b: Seq<TokenTree>, j: int)
    requires
        item_placed(it, b),
        0 <= j < it.args.len(),
    ensures
        !it.args[j].receiver ==> it.args[j].ty is Some,
{
    match b[it.params] {
        TokenTree::Group(Delimiter::Parenthesis, inner) => {
            lemma_args_typed(inner@, 0, Seq::empty());
        },
        _ => {},
    }
}

proof fn lemma_args_typed(t: Seq<TokenTree>, i: int, acc: Seq<ArgSyntax>)
    requires
        0 <= i,
        spec_args(t, i, acc) is Some,
        forall|j: int| 0 <= j < acc.len() ==> (#[trigger] acc[j]).receiver || acc[j].ty is Some,
    ensures
        forall|j: int|
            0 <= j < spec_args(t, i, acc).unwrap().0.len() ==> (#[trigger] spec_args(
                t,
                i,
                acc,
            ).unwrap().0[j]).receiver || spec_args(t, i, acc).unwrap().0[j].ty is Some,
    decreases t.len() - i,
{
    if i < t.len() && !ellipsis_at(t, i) {
        let (a, e) = spec_arg(t, i).unwrap();
        lemma_arg_end(t, i);
        let next = acc.push(a);
        assert forall|j: int| 0 <= j < next.len() implies (#[trigger] next[j]).receiver
            || next[j].ty is Some by {
            if j < acc.len() {
                assert(next[j] == acc[j]);
            }
        }
        if e < t.len() {
            lemma_args_typed(t, e + 1, next);
        }
    }
}

/// Parses a `link!` invocation and reads from it the module name and the
/// functions, as the description and the closures are made from them;
/// `None` exactly when the tokens do not follow the grammar.
pub fn parse_link_call(t: &[TokenTree]) -> (r: Option<(CallSyntax, LinkCall)>)
    ensures
        r is Some <==> spec_call(t@) is Some,
        r matches Some((s, c)) ==> spec_call(t@) == Some(s@) && describes_call(c, t@, s@),
{
    let syntax = match parse_call(t) {
        Some(s) => s,
        None => return None,
    };
    let body = match &t[t.len() - 1] {
        TokenTree::Group(Delimiter::Brace, body) => body.as_slice(),
        _ => {
            proof {
                assert(false);
            }
            return None;
        },
    };
    proof {
        assert(body.len() == body@.len());
        lemma_items_placed(body@, 0, Seq::empty());
    }
    let mut module_items: Vec<LinkItem> = Vec::new();
    let mut k: usize = 0;
    while k < syntax.items.len()
        invariant
            spec_call(t@) == Some(syntax@),
            t@.len() > 0,
            t@.last() matches TokenTree::Group(Delimiter::Brace, g) && g@ == body@,
            forall|j: int|
                0 <= j < syntax@.items.len() ==> item_placed(#[trigger] syntax@.items[j], body@),
            k <= syntax.items@.len(),
            module_items@.len() == k,
            forall|j: int|
                0 <= j < k ==> match #[trigger] module_items@[j] {
                    LinkItem::Func(f) => describes_func(f, body@, syntax@.items[j]),
                    LinkItem::Enum(_) => false,
                },
        decreases syntax.items@.len() - k,
    {
        assert(syntax@.items[k as int] == syntax.items@[k as int]@);
        let f = func_of(body, &syntax.items[k]);
        module_items.push(LinkItem::Func(f));
        k = k + 1;
    }
    let call = LinkCall { module_name: syntax.module_name.clone(), module_items };
    Some((syntax, call))
}

} // verus!
