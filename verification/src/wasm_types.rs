//! The Rust types that cross the boundary between host functions and
//! WebAssembly code: their wasm3 value types, signature characters and
//! stack-slot encodings.
use vstd::prelude::*;

verus! {

/// wasm3's value type code for "no value".
pub const M3_TYPE_NONE: u32 = 0;

/// wasm3's value type code for a 32-bit integer.
pub const M3_TYPE_I32: u32 = 1;

/// wasm3's value type code for a 64-bit integer.
pub const M3_TYPE_I64: u32 = 2;

/// wasm3's value type code for a 32-bit float.
pub const M3_TYPE_F32: u32 = 3;

/// wasm3's value type code for a 64-bit float.
pub const M3_TYPE_F64: u32 = 4;

/// Most arguments a host function can take.
pub const MAX_ARGS: usize = 16;

/// A Rust type that can be passed to or returned from WebAssembly.
#[derive(Clone, Copy, Debug, PartialEq, Eq)]
pub enum WasmValueType {
    I32,
    U32,
    Bool,
    I64,
    U64,
    F32,
    F64,
    /// `()`: no value; only a return type.
    Unit,
}

/// The wasm3 value type a Rust type is passed as.
pub open spec fn spec_type_index(t: WasmValueType) -> u32 {
    match t {
        WasmValueType::I32 | WasmValueType::U32 | WasmValueType::Bool => M3_TYPE_I32,
        WasmValueType::I64 | WasmValueType::U64 => M3_TYPE_I64,
        WasmValueType::F32 => M3_TYPE_F32,
        WasmValueType::F64 => M3_TYPE_F64,
        WasmValueType::Unit => M3_TYPE_NONE,
    }
}

/// The character that stands for a Rust type in a wasm3 signature string.
pub open spec fn spec_signature_char(t: WasmValueType) -> u8 {
    match t {
        WasmValueType::I32 | WasmValueType::U32 | WasmValueType::Bool => 105u8,  // 'i'
        WasmValueType::I64 | WasmValueType::U64 => 73u8,  // 'I'
        WasmValueType::F32 => 102u8,  // 'f'
        WasmValueType::F64 => 70u8,  // 'F'
        WasmValueType::Unit => 118u8,  // 'v'
    }
}

/// Number of stack slots a value of the type takes.
pub open spec fn spec_slot_count(t: WasmValueType) -> usize {
    match t {
        WasmValueType::Unit => 0,
        _ => 1,
    }
}

/// The type codes of an argument list.
pub open spec fn arg_type_codes(args: Seq<WasmValueType>) -> Seq<u32> {
    args.map_values(|t: WasmValueType| spec_type_index(t))
}

/// The signature characters of an argument list.
pub open spec fn arg_signature(args: Seq<WasmValueType>) -> Seq<u8> {
    args.map_values(|t: WasmValueType| spec_signature_char(t))
}

/// A valid argument list: at most sixteen arguments, none of them `()`.
pub open spec fn valid_args(args: Seq<WasmValueType>) -> bool {
    &&& args.len() <= MAX_ARGS
    &&& forall|i: int| 0 <= i < args.len() ==> args[i] != WasmValueType::Unit
}

/// The wasm3 signature string of a function: the return type's character,
/// the argument characters in parentheses, and a terminating NUL.
pub open spec fn signature_string(args: Seq<WasmValueType>, ret: WasmValueType) -> Seq<u8> {
    seq![spec_signature_char(ret), 40u8] + arg_signature(args) + seq![41u8, 0u8]
}

/// The wasm3 value type of `t`.
pub fn type_index(t: WasmValueType) -> (r: u32)
    ensures
        r == spec_type_index(t),
{
    match t {
        WasmValueType::I32 | WasmValueType::U32 | WasmValueType::Bool => M3_TYPE_I32,
        WasmValueType::I64 | WasmValueType::U64 => M3_TYPE_I64,
        WasmValueType::F32 => M3_TYPE_F32,
        WasmValueType::F64 => M3_TYPE_F64,
        WasmValueType::Unit => M3_TYPE_NONE,
    }
}

/// The signature character of `t`.
pub fn signature_char(t: WasmValueType) -> (r: u8)
    ensures
        r == spec_signature_char(t),
{
    match t {
        WasmValueType::I32 | WasmValueType::U32 | WasmValueType::Bool => 105u8,
        WasmValueType::I64 | WasmValueType::U64 => 73u8,
        WasmValueType::F32 => 102u8,
        WasmValueType::F64 => 70u8,
        WasmValueType::Unit => 118u8,
    }
}

/// Number of stack slots a value of type `t` takes.
pub fn size_in_slot_count(t: WasmValueType) -> (r: usize)
    ensures
        r == spec_slot_count(t),
{
    match t {
        WasmValueType::Unit => 0,
        _ => 1,
    }
}

/// Whether the parameter types wasm3 reports, in order, are exactly those
/// of the argument list `args`.
pub fn validate_types(args: &[WasmValueType], types: &[u32]) -> (ok: bool)
    requires
        valid_args(args@),
    ensures
        ok == (types@ == arg_type_codes(args@)),
{
    if args.len() != types.len() {
        proof {
            assert(arg_type_codes(args@).len() == args@.len());
        }
        return false;
    }
    let mut i: usize = 0;
    while i < args.len()
        invariant
            args.len() == types.len(),
            i <= args.len(),
            forall|j: int| 0 <= j < i ==> types@[j] == spec_type_index(args@[j]),
        decreases args.len() - i,
    {
        if type_index(args[i]) != types[i] {
            proof {
                assert(arg_type_codes(args@)[i as int] != types@[i as int]);
            }
            return false;
        }
        i = i + 1;
    }
    proof {
        assert(types@ =~= arg_type_codes(args@));
    }
    true
}

/// Appends the signature characters of the argument list to `buffer`.
pub fn append_signature(args: &[WasmValueType], buffer: &mut Vec<u8>)
    ensures
        final(buffer)@ == old(buffer)@ + arg_signature(args@),
{
    let ghost start = buffer@;
    let mut i: usize = 0;
    while i < args.len()
        invariant
            i <= args.len(),
            buffer@ == start + arg_signature(args@.take(i as int)),
        decreases args.len() - i,
    {
        buffer.push(signature_char(args[i]));
        proof {
            assert(arg_signature(args@.take(i + 1)) =~= arg_signature(args@.take(i as int)).push(
                spec_signature_char(args@[i as int]),
            ));
        }
        i = i + 1;
    }
    proof {
        assert(args@.take(args@.len() as int) =~= args@);
    }
}

/// The signature string wasm3 is given when a host function with these
/// argument and return types is linked, for example `F(if)` followed by a
/// NUL for `(u32, f32) -> f64`.
pub fn function_signature(args: &[WasmValueType], ret: WasmValueType) -> (sig: Vec<u8>)
    ensures
        sig@ == signature_string(args@, ret),
{
    let mut signature: Vec<u8> = Vec::new();
    signature.push(signature_char(ret));
    signature.push(40u8);
    append_signature(args, &mut signature);
    signature.push(41u8);
    signature.push(0u8);
    proof {
        assert(signature@ =~= signature_string(args@, ret));
    }
    signature
}

/// A Rust value that travels through a wasm3 stack slot. A slot is 64 bits
/// wide; 32-bit values occupy its low half, as on the little-endian targets
/// the runtime runs on, and writing one leaves the high half as it was.
pub trait WasmType: Sized {
    /// The type, as the runtime names it.
    spec fn spec_value_type() -> WasmValueType;

    /// The value read from a slot holding `slot`.
    spec fn spec_read(slot: u64) -> Self;

    /// The slot after the value is written into a slot holding `slot`.
    spec fn spec_write(self, slot: u64) -> u64;

    /// The type, as the runtime names it.
    fn value_type() -> (t: WasmValueType)
        ensures
            t == Self::spec_value_type(),
    ;

    /// Reads a value from a slot.
    fn pop_from_slot(slot: u64) -> (v: Self)
        ensures
            v == Self::spec_read(slot),
    ;

    /// Writes the value into a slot.
    fn push_on_slot(self, slot: u64) -> (r: u64)
        ensures
            r == self.spec_write(slot),
    ;

    /// Reading back a written value gives the value.
    proof fn lemma_read_write(v: Self, slot: u64)
        ensures
            Self::spec_read(v.spec_write(slot)) == v,
    ;
}

/// A value that can be passed to WebAssembly as an argument.
pub trait WasmArg: WasmType {

}

/// The low half of a slot, as a 32-bit pattern.
pub open spec fn low_half(slot: u64) -> u32 {
    (slot & 0xFFFF_FFFFu64) as u32
}

/// A slot whose low half is replaced by `bits`.
pub open spec fn with_low_half(slot: u64, bits: u32) -> u64 {
    (slot & 0xFFFF_FFFF_0000_0000u64) | (bits as u64)
}

fn read_low_half(slot: u64) -> (r: u32)
    ensures
        r == low_half(slot),
{
    (slot & 0xFFFF_FFFFu64) as u32
}

fn write_low_half(slot: u64, bits: u32) -> (r: u64)
    ensures
        r == with_low_half(slot, bits),
{
    (slot & 0xFFFF_FFFF_0000_0000u64) | (bits as u64)
}

proof fn lemma_low_half_roundtrip(slot: u64, bits: u32)
    ensures
        low_half(with_low_half(slot, bits)) == bits,
{
    assert(((((slot & 0xFFFF_FFFF_0000_0000u64) | (bits as u64)) & 0xFFFF_FFFFu64) as u32) == bits)
        by (bit_vector);
}

impl WasmType for u32 {
    open spec fn spec_value_type() -> WasmValueType {
        WasmValueType::U32
    }

    open spec fn spec_read(slot: u64) -> u32 {
        low_half(slot)
    }

    open spec fn spec_write(self, slot: u64) -> u64 {
        with_low_half(slot, self)
    }

    fn value_type() -> (t: WasmValueType) {
        WasmValueType::U32
    }

    fn pop_from_slot(slot: u64) -> (v: u32) {
        read_low_half(slot)
    }

    fn push_on_slot(self, slot: u64) -> (r: u64) {
        write_low_half(slot, self)
    }

    proof fn lemma_read_write(v: u32, slot: u64) {
        lemma_low_half_roundtrip(slot, v);
    }
}

impl WasmArg for u32 {

}

/// The 32-bit pattern of an `i32`.
pub open spec fn i32_bits(v: i32) -> u32 {
    v as u32
}

/// The `i32` a 32-bit pattern stands for.
pub open spec fn i32_from_bits(b: u32) -> i32 {
    b as i32
}

fn i32_to_bits(v: i32) -> (b: u32)
    ensures
        b == i32_bits(v),
{
    v as u32
}

fn bits_to_i32(b: u32) -> (v: i32)
    ensures
        v == i32_from_bits(b),
{
    b as i32
}

impl WasmType for i32 {
    open spec fn spec_value_type() -> WasmValueType {
        WasmValueType::I32
    }

    open spec fn spec_read(slot: u64) -> i32 {
        i32_from_bits(low_half(slot))
    }

    open spec fn spec_write(self, slot: u64) -> u64 {
        with_low_half(slot, i32_bits(self))
    }

    fn value_type() -> (t: WasmValueType) {
        WasmValueType::I32
    }

    fn pop_from_slot(slot: u64) -> (v: i32) {
        bits_to_i32(read_low_half(slot))
    }

    fn push_on_slot(self, slot: u64) -> (r: u64) {
        write_low_half(slot, i32_to_bits(self))
    }

    proof fn lemma_read_write(v: i32, slot: u64) {
        lemma_low_half_roundtrip(slot, i32_bits(v));
        assert((v as u32) as i32 == v) by (bit_vector);
    }
}

impl WasmArg for i32 {

}

impl WasmType for bool {
    open spec fn spec_value_type() -> WasmValueType {
        WasmValueType::Bool
    }

    open spec fn spec_read(slot: u64) -> bool {
        low_half(slot) != 0
    }

    open spec fn spec_write(self, slot: u64) -> u64 {
        with_low_half(slot, if self { 1u32 } else { 0u32 })
    }

    fn value_type() -> (t: WasmValueType) {
        WasmValueType::Bool
    }

    fn pop_from_slot(slot: u64) -> (v: bool) {
        read_low_half(slot) != 0
    }

    fn push_on_slot(self, slot: u64) -> (r: u64) {
        write_low_half(slot, if self { 1u32 } else { 0u32 })
    }

    proof fn lemma_read_write(v: bool, slot: u64) {
        lemma_low_half_roundtrip(slot, if v { 1u32 } else { 0u32 });
    }
}

impl WasmArg for bool {

}

impl WasmType for u64 {
    open spec fn spec_value_type() -> WasmValueType {
        WasmValueType::U64
    }

    open spec fn spec_read(slot: u64) -> u64 {
        slot
    }

    open spec fn spec_write(self, slot: u64) -> u64 {
        self
    }

    fn value_type() -> (t: WasmValueType) {
        WasmValueType::U64
    }

    fn pop_from_slot(slot: u64) -> (v: u64) {
        slot
    }

    fn push_on_slot(self, slot: u64) -> (r: u64) {
        self
    }

    proof fn lemma_read_write(v: u64, slot: u64) {
    }
}

impl WasmArg for u64 {

}

/// The 64-bit pattern of an `i64`.
pub open spec fn i64_bits(v: i64) -> u64 {
    v as u64
}

fn i64_to_bits(v: i64) -> (b: u64)
    ensures
        b == i64_bits(v),
{
    v as u64
}

fn bits_to_i64(b: u64) -> (v: i64)
    ensures
        v == b as i64,
{
    b as i64
}

impl WasmType for i64 {
    open spec fn spec_value_type() -> WasmValueType {
        WasmValueType::I64
    }

    open spec fn spec_read(slot: u64) -> i64 {
        slot as i64
    }

    open spec fn spec_write(self, slot: u64) -> u64 {
        i64_bits(self)
    }

    fn value_type() -> (t: WasmValueType) {
        WasmValueType::I64
    }

    fn pop_from_slot(slot: u64) -> (v: i64) {
        bits_to_i64(slot)
    }

    fn push_on_slot(self, slot: u64) -> (r: u64) {
        i64_to_bits(self)
    }

    proof fn lemma_read_write(v: i64, slot: u64) {
        assert((v as u64) as i64 == v) by (bit_vector);
    }
}

impl WasmArg for i64 {

}

impl WasmType for () {
    open spec fn spec_value_type() -> WasmValueType {
        WasmValueType::Unit
    }

    open spec fn spec_read(slot: u64) -> () {
        ()
    }

    open spec fn spec_write(self, slot: u64) -> u64 {
        slot
    }

    fn value_type() -> (t: WasmValueType) {
        WasmValueType::Unit
    }

    fn pop_from_slot(slot: u64) -> (v: ()) {
    }

    fn push_on_slot(self, slot: u64) -> (r: u64) {
        slot
    }

    proof fn lemma_read_write(v: (), slot: u64) {
    }
}

// ---------------------------------------------------------------------------
// Argument lists.
// ---------------------------------------------------------------------------

/// One argument of a host function call, of one of the integer types.
#[derive(Clone, Copy, Debug, PartialEq, Eq)]
pub enum WasmValue {
    I32(i32),
    U32(u32),
    Bool(bool),
    I64(i64),
    U64(u64),
}

/// The type of an argument.
pub open spec fn spec_type_of(v: WasmValue) -> WasmValueType {
    match v {
        WasmValue::I32(_) => WasmValueType::I32,
        WasmValue::U32(_) => WasmValueType::U32,
        WasmValue::Bool(_) => WasmValueType::Bool,
        WasmValue::I64(_) => WasmValueType::I64,
        WasmValue::U64(_) => WasmValueType::U64,
    }
}

/// The types of an argument list.
pub open spec fn types_of(values: Seq<WasmValue>) -> Seq<WasmValueType> {
    values.map_values(|v: WasmValue| spec_type_of(v))
}

/// The slot after the argument is written into a slot holding `slot`.
pub open spec fn write_value(v: WasmValue, slot: u64) -> u64 {
    match v {
        WasmValue::I32(x) => x.spec_write(slot),
        WasmValue::U32(x) => x.spec_write(slot),
        WasmValue::Bool(x) => x.spec_write(slot),
        WasmValue::I64(x) => x.spec_write(slot),
        WasmValue::U64(x) => x.spec_write(slot),
    }
}

/// An argument type that a slot can be read as: an integer type or `bool`.
pub open spec fn integer_type(t: WasmValueType) -> bool {
    t == WasmValueType::I32 || t == WasmValueType::U32 || t == WasmValueType::Bool || t
        == WasmValueType::I64 || t == WasmValueType::U64
}

/// The argument of type `t` read from a slot holding `slot`.
pub open spec fn read_value(t: WasmValueType, slot: u64) -> WasmValue {
    match t {
        WasmValueType::I32 => WasmValue::I32(<i32 as WasmType>::spec_read(slot)),
        WasmValueType::U32 => WasmValue::U32(<u32 as WasmType>::spec_read(slot)),
        WasmValueType::Bool => WasmValue::Bool(<bool as WasmType>::spec_read(slot)),
        WasmValueType::I64 => WasmValue::I64(<i64 as WasmType>::spec_read(slot)),
        _ => WasmValue::U64(<u64 as WasmType>::spec_read(slot)),
    }
}

fn write_one(v: WasmValue, slot: u64) -> (r: u64)
    ensures
        r == write_value(v, slot),
{
    match v {
        WasmValue::I32(x) => x.push_on_slot(slot),
        WasmValue::U32(x) => x.push_on_slot(slot),
        WasmValue::Bool(x) => x.push_on_slot(slot),
        WasmValue::I64(x) => x.push_on_slot(slot),
        WasmValue::U64(x) => x.push_on_slot(slot),
    }
}

fn read_one(t: WasmValueType, slot: u64) -> (v: WasmValue)
    requires
        integer_type(t),
    ensures
        v == read_value(t, slot),
{
    match t {
        WasmValueType::I32 => WasmValue::I32(<i32 as WasmType>::pop_from_slot(slot)),
        WasmValueType::U32 => WasmValue::U32(<u32 as WasmType>::pop_from_slot(slot)),
        WasmValueType::Bool => WasmValue::Bool(<bool as WasmType>::pop_from_slot(slot)),
        WasmValueType::I64 => WasmValue::I64(<i64 as WasmType>::pop_from_slot(slot)),
        _ => WasmValue::U64(<u64 as WasmType>::pop_from_slot(slot)),
    }
}

/// Writes the arguments into consecutive slots of the stack from `start`
/// on, one slot each; the other slots are left as they were.
pub fn push_args(values: &[WasmValue], stack: &mut Vec<u64>, start: usize)
    requires
        start + values@.len() <= old(stack)@.len(),
    ensures
        final(stack)@.len() == old(stack)@.len(),
        forall|i: int|
            0 <= i < final(stack)@.len() && !(start <= i < start + values@.len())
                ==> #[trigger] final(stack)@[i] == old(stack)@[i],
        forall|i: int|
            0 <= i < values@.len() ==> #[trigger] final(stack)@[start + i] == write_value(
                values@[i],
                old(stack)@[start + i],
            ),
{
    let ghost before = stack@;
    let mut i: usize = 0;
    while i < values.len()
        invariant
            start + values@.len() <= before.len(),
            i <= values@.len(),
            stack@.len() == before.len(),
            forall|j: int|
                0 <= j < stack@.len() && !(start <= j < start + i) ==> #[trigger] stack@[j]
                    == before[j],
            forall|j: int|
                0 <= j < i ==> #[trigger] stack@[start + j] == write_value(
                    values@[j],
                    before[start + j],
                ),
        decreases values@.len() - i,
    {
        proof {
            assert(stack.len() == stack@.len());
        }
        let slot = stack[start + i];
        let written = write_one(values[i], slot);
        stack.set(start + i, written);
        i = i + 1;
    }
}

/// Reads arguments of the given types from consecutive slots of the stack
/// from `start` on, one slot each.
pub fn pop_args(types: &[WasmValueType], stack: &[u64], start: usize) -> (values: Vec<WasmValue>)
    requires
        start + types@.len() <= stack@.len(),
        forall|i: int| 0 <= i < types@.len() ==> integer_type(#[trigger] types@[i]),
    ensures
        values@.len() == types@.len(),
        forall|i: int|
            0 <= i < types@.len() ==> #[trigger] values@[i] == read_value(
                types@[i],
                stack@[start + i],
            ),
{
    let mut values: Vec<WasmValue> = Vec::new();
    let mut i: usize = 0;
    while i < types.len()
        invariant
            start + types@.len() <= stack@.len(),
            forall|j: int| 0 <= j < types@.len() ==> integer_type(#[trigger] types@[j]),
            i <= types@.len(),
            values@.len() == i,
            forall|j: int|
                0 <= j < i ==> #[trigger] values@[j] == read_value(types@[j], stack@[start + j]),
        decreases types@.len() - i,
    {
        proof {
            assert(stack.len() == stack@.len());
        }
        values.push(read_one(types[i], stack[start + i]));
        i = i + 1;
    }
    values
}

/// Reading an argument list back from the slots it was written to gives
/// the same arguments: what a host function receives is what was passed.
pub proof fn lemma_args_roundtrip(values: Seq<WasmValue>, before: Seq<u64>, after: Seq<u64>, start: int)
    requires
        0 <= start,
        start + values.len() <= before.len(),
        after.len() == before.len(),
        forall|i: int|
            0 <= i < values.len() ==> #[trigger] after[start + i] == write_value(
                values[i],
                before[start + i],
            ),
    ensures
        forall|i: int|
            0 <= i < values.len() ==> integer_type(#[trigger] types_of(values)[i]),
        forall|i: int|
            0 <= i < values.len() ==> #[trigger] read_value(types_of(values)[i], after[start + i])
                == values[i],
{
    assert forall|i: int| 0 <= i < values.len() implies #[trigger] read_value(
        types_of(values)[i],
        after[start + i],
    ) == values[i] by {
        let slot = before[start + i];
        assert(after[start + i] == write_value(values[i], slot));
        match values[i] {
            WasmValue::I32(x) => <i32 as WasmType>::lemma_read_write(x, slot),
            WasmValue::U32(x) => <u32 as WasmType>::lemma_read_write(x, slot),
            WasmValue::Bool(x) => <bool as WasmType>::lemma_read_write(x, slot),
            WasmValue::I64(x) => <i64 as WasmType>::lemma_read_write(x, slot),
            WasmValue::U64(x) => <u64 as WasmType>::lemma_read_write(x, slot),
        }
    }
}

// ---------------------------------------------------------------------------
// What the codes and slots hold.
// ---------------------------------------------------------------------------

/// A type's wasm3 value-type code agrees with its signature character, as
/// wasm3 reads signatures: `i` is a 32-bit integer, `I` a 64-bit integer,
/// `f` and `F` the two float widths and `v` no value. So the parameter types
/// of a function whose signature is `signature_string(args, ret)` are
/// exactly the codes `validate_types` accepts for `args`.
pub proof fn lemma_type_code_agrees_with_signature(t: WasmValueType)
    ensures
        spec_signature_char(t) == 105u8 <==> spec_type_index(t) == M3_TYPE_I32,
        spec_signature_char(t) == 73u8 <==> spec_type_index(t) == M3_TYPE_I64,
        spec_signature_char(t) == 102u8 <==> spec_type_index(t) == M3_TYPE_F32,
        spec_signature_char(t) == 70u8 <==> spec_type_index(t) == M3_TYPE_F64,
        spec_signature_char(t) == 118u8 <==> spec_type_index(t) == M3_TYPE_NONE,
        spec_signature_char(t) == 73u8 <==> (t == WasmValueType::I64 || t == WasmValueType::U64),
        spec_signature_char(t) == 105u8 <==> (t == WasmValueType::I32 || t == WasmValueType::U32
            || t == WasmValueType::Bool),
{
}

/// How each integer type lies in a 64-bit stack slot. A 64-bit value fills
/// the slot with its two's-complement bit pattern, and reading gives the
/// slot's bits back as that type. A 32-bit value (and a `bool`, as 0 or 1)
/// fills the low 32 bits of the slot, leaving the high 32 bits as they were,
/// and reading looks at the low 32 bits only.
pub proof fn lemma_slot_layout(slot: u64, a: u32, b: i32, c: bool, d: u64, e: i64)
    ensures
        <u64 as WasmType>::spec_write(d, slot) == d,
        <u64 as WasmType>::spec_read(slot) == slot,
        <i64 as WasmType>::spec_write(e, slot) == (if e >= 0 {
            e as int
        } else {
            e + 0x1_0000_0000_0000_0000
        }),
        <i64 as WasmType>::spec_read(slot) == (if slot < 0x8000_0000_0000_0000 {
            slot as int
        } else {
            slot - 0x1_0000_0000_0000_0000
        }),
        <u32 as WasmType>::spec_write(a, slot) % 0x1_0000_0000 == a,
        <u32 as WasmType>::spec_write(a, slot) / 0x1_0000_0000 == slot / 0x1_0000_0000,
        <u32 as WasmType>::spec_read(slot) == slot % 0x1_0000_0000,
        <i32 as WasmType>::spec_write(b, slot) % 0x1_0000_0000 == (if b >= 0 {
            b as int
        } else {
            b + 0x1_0000_0000
        }),
        <i32 as WasmType>::spec_write(b, slot) / 0x1_0000_0000 == slot / 0x1_0000_0000,
        <i32 as WasmType>::spec_read(slot) == (if slot % 0x1_0000_0000 < 0x8000_0000 {
            (slot % 0x1_0000_0000) as int
        } else {
            slot % 0x1_0000_0000 - 0x1_0000_0000
        }),
        <bool as WasmType>::spec_write(c, slot) % 0x1_0000_0000 == (if c {
            1int
        } else {
            0int
        }),
        <bool as WasmType>::spec_write(c, slot) / 0x1_0000_0000 == slot / 0x1_0000_0000,
        <bool as WasmType>::spec_read(slot) == (slot % 0x1_0000_0000 != 0),
{
    lemma_low_half_layout(slot, a);
    lemma_low_half_layout(slot, i32_bits(b));
    lemma_low_half_layout(slot, if c { 1u32 } else { 0u32 });
    assert(b >= 0 ==> (b as u32) == b) by (bit_vector);
    assert(b < 0 ==> (b as u32) == b + 0x1_0000_0000) by (bit_vector);
    let l = low_half(slot);
    assert(l < 0x8000_0000 ==> (l as i32) == l) by (bit_vector);
    assert(l >= 0x8000_0000 ==> (l as i32) == l - 0x1_0000_0000) by (bit_vector);
    assert(e >= 0 ==> (e as u64) == e) by (bit_vector);
    assert(e < 0 ==> (e as u64) == e + 0x1_0000_0000_0000_0000) by (bit_vector);
    assert(slot < 0x8000_0000_0000_0000 ==> (slot as i64) == slot) by (bit_vector);
    assert(slot >= 0x8000_0000_0000_0000 ==> (slot as i64) == slot - 0x1_0000_0000_0000_0000)
        by (bit_vector);
}

proof fn lemma_low_half_layout(slot: u64, bits: u32)
    ensures
        with_low_half(slot, bits) % 0x1_0000_0000 == bits,
        with_low_half(slot, bits) / 0x1_0000_0000 == slot / 0x1_0000_0000,
        low_half(slot) == slot % 0x1_0000_0000,
{
    assert(((slot & 0xFFFF_FFFF_0000_0000u64) | (bits as u64)) % 0x1_0000_0000u64 == bits as u64)
        by (bit_vector);
    assert(((slot & 0xFFFF_FFFF_0000_0000u64) | (bits as u64)) / 0x1_0000_0000u64 == slot
        / 0x1_0000_0000u64) by (bit_vector);
    assert(((slot & 0xFFFF_FFFFu64) as u32) as u64 == slot % 0x1_0000_0000u64) by (bit_vector);
}

} // verus!
