//! Verified core of the hydrozoa WebAssembly runtime for the VEX V5 brain.
use vstd::prelude::*;

pub mod allocation;
pub mod bits;
pub mod cstring;
pub mod link_plan;
pub mod link_syntax;
pub mod module;
pub mod platform;
pub mod sdk_api;
pub mod sys_support;
pub mod teavm;
pub mod wasm_types;

verus! {

/// Host state attached to the WebAssembly store.
#[derive(Default, Debug)]
pub struct Data {}

} // verus!
