//! Linking host functions into a loaded WebAssembly module: the names and
//! signature handed to wasm3, and how its answer becomes the caller's result.
use vstd::prelude::*;
use vstd::string::StringSliceAdditionalSpecFns;
use crate::cstring::utf8_to_string;
use crate::wasm_types::{function_signature, signature_string, WasmValueType};

verus! {

/// Why a wasm3 operation failed.
#[derive(Clone, Debug, PartialEq, Eq)]
pub enum LinkError {
    /// A module or function name holds a NUL byte and cannot be passed to C.
    NulInName,
    /// No imported function by the given module and function name exists.
    FunctionNotFound,
    /// Any other error wasm3 reported, with its message.
    Runtime(String),
}

/// Failed to link a WASM function.
#[derive(Debug)]
pub struct ClosureLinkFailed {
    /// The source of the error.
    pub source: LinkError,
    /// The name of the function that was being linked.
    pub name: String,
}

/// What wasm3 is given to link one host function: the module and function
/// names as NUL-terminated strings, and the signature string.
#[derive(Clone, Debug, PartialEq, Eq)]
pub struct LinkRequest {
    pub module_name: Vec<u8>,
    pub function_name: Vec<u8>,
    pub signature: Vec<u8>,
}

/// The bytes of `s` as a C string: its UTF-8 encoding and a terminating NUL,
/// or nothing when the encoding itself holds a NUL byte.
pub open spec fn c_string(s: Seq<u8>) -> Option<Seq<u8>> {
    if s.contains(0u8) {
        None
    } else {
        Some(s.push(0u8))
    }
}

/// Converts a name to a C string, as `CString::new` does: fails when the
/// name holds a NUL byte, else appends the terminator.
pub fn c_string_bytes(s: &str) -> (r: Option<Vec<u8>>)
    ensures
        r matches Some(v) ==> c_string(s.spec_bytes()) == Some(v@),
        r is None ==> c_string(s.spec_bytes()) is None,
{
    let bytes = s.as_bytes();
    let mut out: Vec<u8> = Vec::new();
    let mut i: usize = 0;
    while i < bytes.len()
        invariant
            bytes@ == s.spec_bytes(),
            i <= bytes@.len(),
            out@ == bytes@.take(i as int),
            forall|j: int| 0 <= j < i ==> bytes@[j] != 0u8,
        decreases bytes.len() - i,
    {
        if bytes[i] == 0 {
            proof {
                assert(bytes@.contains(0u8)) by {
                    assert(bytes@[i as int] == 0u8);
                }
            }
            return None;
        }
        out.push(bytes[i]);
        proof {
            assert(bytes@.take(i + 1) =~= bytes@.take(i as int).push(bytes@[i as int]));
        }
        i = i + 1;
    }
    proof {
        assert(bytes@.take(bytes@.len() as int) =~= bytes@);
        assert(!bytes@.contains(0u8));
    }
    out.push(0u8);
    Some(out)
}

/// What `link_function` hands to wasm3 for a host function of the given
/// argument and return types, or the error it returns first: a module name
/// with a NUL byte, then a function name with one.
pub fn link_function_request(
    module_name: &str,
    function_name: &str,
    args: &[WasmValueType],
    ret: WasmValueType,
) -> (r: Result<LinkRequest, LinkError>)
    ensures
        c_string(module_name.spec_bytes()) is None ==> r == Err::<LinkRequest, LinkError>(
            LinkError::NulInName,
        ),
        c_string(module_name.spec_bytes()) is Some && c_string(function_name.spec_bytes()) is None
            ==> r == Err::<LinkRequest, LinkError>(LinkError::NulInName),
        r matches Ok(req) ==> {
            &&& c_string(module_name.spec_bytes()) == Some(req.module_name@)
            &&& c_string(function_name.spec_bytes()) == Some(req.function_name@)
            &&& req.signature@ == signature_string(args@, ret)
        },
        c_string(module_name.spec_bytes()) is Some && c_string(function_name.spec_bytes()) is Some
            ==> r is Ok,
{
    let module_cstr = match c_string_bytes(module_name) {
        Some(v) => v,
        None => return Err(LinkError::NulInName),
    };
    let function_cstr = match c_string_bytes(function_name) {
        Some(v) => v,
        None => return Err(LinkError::NulInName),
    };
    let signature = function_signature(args, ret);
    Ok(LinkRequest { module_name: module_cstr, function_name: function_cstr, signature })
}

/// What `link_closure` hands to wasm3, or the failure it reports for the
/// function: the same requests as `link_function`, with the errors tagged
/// with the function's name.
pub fn link_closure_request(
    module_name: &str,
    function_name: &str,
    args: &[WasmValueType],
    ret: WasmValueType,
) -> (r: Result<LinkRequest, ClosureLinkFailed>)
    ensures
        r matches Ok(req) ==> names_are_c_strings(
            module_name.spec_bytes(),
            function_name.spec_bytes(),
        ) && c_string(module_name.spec_bytes()) == Some(req.module_name@) && c_string(
            function_name.spec_bytes(),
        ) == Some(req.function_name@) && req.signature@ == signature_string(args@, ret),
        r matches Err(e) ==> !names_are_c_strings(
            module_name.spec_bytes(),
            function_name.spec_bytes(),
        ) && e.source == LinkError::NulInName && e.name@ == function_name@,
{
    match link_function_request(module_name, function_name, args, ret) {
        Ok(req) => Ok(req),
        Err(source) => Err(ClosureLinkFailed { source, name: function_name.to_owned() }),
    }
}

/// Whether both names can be passed to C.
pub open spec fn names_are_c_strings(module_name: Seq<u8>, function_name: Seq<u8>) -> bool {
    c_string(module_name) is Some && c_string(function_name) is Some
}

/// The result of `link_closure` once wasm3 answered the request: as its
/// documentation states, every error wasm3 reports, a function the module
/// does not import among them, fails the link of the named function.
pub fn link_closure_outcome(function_name: &str, answer: Result<(), LinkError>) -> (r: Result<
    (),
    ClosureLinkFailed,
>)
    ensures
        match answer {
            Ok(()) => r is Ok,
            Err(e) => r matches Err(f) && f.source == e && f.name@ == function_name@,
        },
{
    match answer {
        Ok(()) => Ok(()),
        Err(e) => Err(ClosureLinkFailed { source: e, name: function_name.to_owned() }),
    }
}

/// The result of `find_function` once the function named was found in the
/// store: it is this module's only when it belongs to the module's
/// instance.
pub fn find_function_outcome(function_instance: Option<usize>, this_instance: usize) -> (r: Result<
    (),
    LinkError,
>)
    ensures
        r is Ok <==> function_instance == Some(this_instance),
        r matches Err(e) ==> e == LinkError::FunctionNotFound,
{
    match function_instance {
        Some(instance) => {
            if instance == this_instance {
                Ok(())
            } else {
                Err(LinkError::FunctionNotFound)
            }
        },
        None => Err(LinkError::FunctionNotFound),
    }
}

/// The length wasm3 is given for a module of `len` bytes, which must fit in
/// 32 bits.
pub fn module_data_len(len: usize) -> (r: u32)
    requires
        len <= u32::MAX,
    ensures
        r == len,
{
    len as u32
}

/// `n` is the position of the first NUL byte of `s`.
pub open spec fn first_nul_at(s: Seq<u8>, n: int) -> bool {
    0 <= n < s.len() && s[n] == 0 && forall|j: int| 0 <= j < n ==> s[j] != 0
}

/// The bytes of a NUL-terminated string before its first NUL.
pub open spec fn c_string_body(s: Seq<u8>) -> Seq<u8> {
    s.take(choose|n: int| first_nul_at(s, n))
}

/// The text of a module name wasm3 hands back as a NUL-terminated string:
/// the bytes before the first NUL decoded as UTF-8, or `None` when they are
/// not valid UTF-8.
pub fn name_text(bytes: &[u8]) -> (r: Option<String>)
    requires
        bytes@.contains(0u8),
    ensures
        r is Some <==> vstd::utf8::valid_utf8(c_string_body(bytes@)),
        r matches Some(s) ==> s@ == vstd::utf8::decode_utf8(c_string_body(bytes@)),
{
    let mut n: usize = 0;
    while bytes[n] != 0
        invariant
            n < bytes@.len(),
            exists|k: int| n <= k < bytes@.len() && bytes@[k] == 0u8,
            forall|j: int| 0 <= j < n ==> bytes@[j] != 0,
        decreases bytes@.len() - n,
    {
        n = n + 1;
    }
    proof {
        assert(first_nul_at(bytes@, n as int));
        let m = choose|m: int| first_nul_at(bytes@, m);
        assert(m == n as int) by {
            if m < n {
                assert(bytes@[m] != 0);
            } else if m > n {
                assert(bytes@[n as int] != 0);
            }
        }
    }
    let body = &bytes[0..n];
    assert(body@ =~= c_string_body(bytes@));
    utf8_to_string(body)
}

} // verus!
