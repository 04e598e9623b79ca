//! Reading the fields of an event, laid out in SCALE: little-endian
//! integers, one byte for a `bool`, raw bytes for a fixed-size array. Each
//! field is read with `parity-scale-codec`'s decoder for its type.
use vstd::prelude::*;
use vstd::slice::slice_subrange;
use parity_scale_codec::Decode;

verus! {

/// Why an event could not be read.
#[derive(Clone, Copy, Debug, PartialEq, Eq, Structural)]
pub enum EventError {
    /// The event has a name that the pallet's events have, but comes from
    /// another pallet.
    NotFound,
    /// The fields of the event are too short, or hold a value that their
    /// type does not allow.
    MalformedFields,
}

/// The number whose little-endian encoding is the first four bytes of `b`.
pub open spec fn le_value(b: Seq<u8>) -> u32 {
    (b[0] + b[1] * 0x100int + b[2] * 0x1_0000int + b[3] * 0x100_0000int) as u32
}

/// The `u32` encoded at `f[at..at + 4]`.
pub open spec fn u32_at(f: Seq<u8>, at: int) -> u32 {
    le_value(f.subrange(at, at + 4))
}

/// Calls `<u32 as parity_scale_codec::Decode>::decode`, which reads four
/// bytes and takes them little-endian, and fails when fewer than four are
/// left (`Input::read` for `&[u8]`, `impl_endians!` in the crate's
/// `codec.rs`).
#[verifier::external_body]
fn decode_u32(input: &[u8]) -> (r: Option<u32>)
    ensures
        match r {
            Some(x) => input@.len() >= 4 && x == le_value(input@),
            None => input@.len() < 4,
        },
{
    let mut rest: &[u8] = input;
    u32::decode(&mut rest).ok()
}

/// Calls `<bool as parity_scale_codec::Decode>::decode`, which reads one
/// byte, gives `false` for 0 and `true` for 1, and fails on any other byte
/// or when no byte is left.
#[verifier::external_body]
fn decode_bool(input: &[u8]) -> (r: Option<bool>)
    ensures
        match r {
            Some(b) => input@.len() >= 1 && input@[0] <= 1 && b == (input@[0] == 1),
            None => input@.len() < 1 || input@[0] > 1,
        },
{
    let mut rest: &[u8] = input;
    bool::decode(&mut rest).ok()
}

/// Calls `<[u8; 32] as parity_scale_codec::Decode>::decode`, which copies
/// the first 32 bytes and fails when fewer are left.
#[verifier::external_body]
fn decode_bytes32(input: &[u8]) -> (r: Option<[u8; 32]>)
    ensures
        match r {
            Some(a) => input@.len() >= 32 && a@ == input@.subrange(0, 32),
            None => input@.len() < 32,
        },
{
    let mut rest: &[u8] = input;
    <[u8; 32]>::decode(&mut rest).ok()
}

/// The `u32` field at `f[at..]`.
pub fn u32_field(f: &[u8], at: usize) -> (r: Result<u32, EventError>)
    requires
        at <= f@.len(),
    ensures
        match r {
            Ok(x) => at + 4 <= f@.len() && x == u32_at(f@, at as int),
            Err(e) => e == EventError::MalformedFields && at + 4 > f@.len(),
        },
{
    let rest = slice_subrange(f, at, f.len());
    match decode_u32(rest) {
        Some(x) => {
            assert(rest@.subrange(0, 4) =~= f@.subrange(at as int, at + 4));
            Ok(x)
        },
        None => Err(EventError::MalformedFields),
    }
}

/// The `bool` field at `f[at..]`.
pub fn bool_field(f: &[u8], at: usize) -> (r: Result<bool, EventError>)
    requires
        at <= f@.len(),
    ensures
        match r {
            Ok(b) => at + 1 <= f@.len() && f@[at as int] <= 1 && b == (f@[at as int] == 1),
            Err(e) => e == EventError::MalformedFields && (at + 1 > f@.len() || f@[at as int] > 1),
        },
{
    let rest = slice_subrange(f, at, f.len());
    match decode_bool(rest) {
        Some(b) => Ok(b),
        None => Err(EventError::MalformedFields),
    }
}

/// The 32-byte field at `f[at..]`.
pub fn bytes32_field(f: &[u8], at: usize) -> (r: Result<[u8; 32], EventError>)
    requires
        at <= f@.len(),
    ensures
        match r {
            Ok(a) => at + 32 <= f@.len() && a@ == f@.subrange(at as int, at + 32),
            Err(e) => e == EventError::MalformedFields && at + 32 > f@.len(),
        },
{
    let rest = slice_subrange(f, at, f.len());
    match decode_bytes32(rest) {
        Some(a) => {
            assert(rest@.subrange(0, 32) =~= f@.subrange(at as int, at + 32));
            Ok(a)
        },
        None => Err(EventError::MalformedFields),
    }
}

/// The SCALE encoding of a `u32`: its four bytes, least significant first.
pub open spec fn le_bytes(x: u32) -> Seq<u8> {
    seq![
        (x % 0x100) as u8,
        ((x / 0x100) % 0x100) as u8,
        ((x / 0x1_0000) % 0x100) as u8,
        (x / 0x100_0000) as u8,
    ]
}

/// Reading a `u32` where its SCALE encoding stands gives it back.
pub proof fn lemma_u32_at_le_bytes(pre: Seq<u8>, x: u32, post: Seq<u8>)
    ensures
        u32_at(pre + le_bytes(x) + post, pre.len() as int) == x,
{
    let f = pre + le_bytes(x) + post;
    assert(f.subrange(pre.len() as int, pre.len() as int + 4) =~= le_bytes(x));
    assert((x % 0x100) + ((x / 0x100) % 0x100) * 0x100int + ((x / 0x1_0000) % 0x100) * 0x1_0000int
        + (x / 0x100_0000) * 0x100_0000int == x) by (nonlinear_arith);
}

} // verus!
