//! Big-endian encoding of `u32` values, as used in every record key and in
//! the progress values of the root tree.
use vstd::prelude::*;

verus! {

/// The four bytes of `x`, most significant first.
pub open spec fn be_bytes(x: u32) -> Seq<u8> {
    seq![
        (x / 0x100_0000) as u8,
        ((x / 0x1_0000) % 0x100) as u8,
        ((x / 0x100) % 0x100) as u8,
        (x % 0x100) as u8,
    ]
}

/// The number whose big-endian encoding is the first four bytes of `b`.
pub open spec fn be_value(b: Seq<u8>) -> u32 {
    (b[0] * 0x100_0000int + b[1] * 0x1_0000int + b[2] * 0x100int + b[3]) as u32
}

/// Decoding the encoding of `x` gives `x` back.
pub proof fn lemma_be_value_of_bytes(x: u32)
    ensures
        be_value(be_bytes(x)) == x,
{
    let b = be_bytes(x);
    assert(b[0] == x / 0x100_0000);
    assert(b[1] == (x / 0x1_0000) % 0x100);
    assert(b[2] == (x / 0x100) % 0x100);
    assert(b[3] == x % 0x100);
    assert((x / 0x100_0000) * 0x100_0000int + ((x / 0x1_0000) % 0x100) * 0x1_0000int + ((x / 0x100)
        % 0x100) * 0x100int + x % 0x100 == x) by (nonlinear_arith);
}

/// Encoding the value of four bytes gives the same four bytes back.
pub proof fn lemma_be_bytes_of_value(b: Seq<u8>)
    requires
        b.len() == 4,
    ensures
        be_bytes(be_value(b)) == b,
{
    let v: int = b[0] * 0x100_0000int + b[1] * 0x1_0000int + b[2] * 0x100int + b[3];
    let (b0, b1, b2, b3) = (b[0] as int, b[1] as int, b[2] as int, b[3] as int);
    assert(0 <= v < 0x1_0000_0000) by (nonlinear_arith)
        requires
            v == b0 * 0x100_0000int + b1 * 0x1_0000int + b2 * 0x100int + b3,
            0 <= b0 < 256,
            0 <= b1 < 256,
            0 <= b2 < 256,
            0 <= b3 < 256,
    ;
    assert(v / 0x100_0000 == b0 && (v / 0x1_0000) % 0x100 == b1 && (v / 0x100) % 0x100 == b2 && v
        % 0x100 == b3) by (nonlinear_arith)
        requires
            v == b0 * 0x100_0000int + b1 * 0x1_0000int + b2 * 0x100int + b3,
            0 <= b0 < 256,
            0 <= b1 < 256,
            0 <= b2 < 256,
            0 <= b3 < 256,
    ;
    assert(be_bytes(be_value(b)) =~= b);
}

/// Two numbers have the same encoding only if they are equal.
pub proof fn lemma_be_bytes_injective(x: u32, y: u32)
    requires
        be_bytes(x) == be_bytes(y),
    ensures
        x == y,
{
    lemma_be_value_of_bytes(x);
    lemma_be_value_of_bytes(y);
}

/// The big-endian bytes of `x`.
pub fn u32_to_be_bytes(x: u32) -> (r: [u8; 4])
    ensures
        r@ == be_bytes(x),
{
    let r = [
        (x / 0x100_0000) as u8,
        ((x / 0x1_0000) % 0x100) as u8,
        ((x / 0x100) % 0x100) as u8,
        (x % 0x100) as u8,
    ];
    assert(r@ =~= be_bytes(x));
    r
}

/// The number whose big-endian bytes are `b`.
pub fn u32_from_be_bytes(b: [u8; 4]) -> (r: u32)
    ensures
        r == be_value(b@),
{
    let r = (b[0] as u32) * 0x100_0000 + (b[1] as u32) * 0x1_0000 + (b[2] as u32) * 0x100
        + b[3] as u32;
    r
}

/// The first four bytes of `v`. `v` must hold at least four.
pub fn vector_as_u8_4_array(v: &[u8]) -> (r: [u8; 4])
    requires
        v@.len() >= 4,
    ensures
        r@ == v@.subrange(0, 4),
{
    let r = [v[0], v[1], v[2], v[3]];
    assert(r@ =~= v@.subrange(0, 4));
    r
}

/// Appends the big-endian bytes of `x` to `out`.
pub fn push_u32_be(out: &mut Vec<u8>, x: u32)
    ensures
        final(out)@ == old(out)@ + be_bytes(x),
{
    let b = u32_to_be_bytes(x);
    out.push(b[0]);
    out.push(b[1]);
    out.push(b[2]);
    out.push(b[3]);
    assert(final(out)@ =~= old(out)@ + be_bytes(x));
}

/// Appends the 32 bytes of `b` to `out`.
pub fn push_bytes32(out: &mut Vec<u8>, b: &[u8; 32])
    ensures
        final(out)@ == old(out)@ + b@,
{
    let mut i: usize = 0;
    while i < 32
        invariant
            0 <= i <= 32,
            b@.len() == 32,
            out@ == old(out)@ + b@.subrange(0, i as int),
        decreases 32 - i,
    {
        out.push(b[i]);
        assert(b@.subrange(0, i + 1) =~= b@.subrange(0, i as int).push(b@[i as int]));
        i = i + 1;
    }
    assert(b@.subrange(0, 32) =~= b@);
}

/// The number encoded big-endian in `b[at..at + 4]`.
pub fn read_u32_be(b: &[u8], at: usize) -> (r: u32)
    requires
        at + 4 <= b@.len(),
    ensures
        r == be_value(b@.subrange(at as int, at + 4)),
{
    u32_from_be_bytes([b[at], b[at + 1], b[at + 2], b[at + 3]])
}

/// Copies `b[at..at + 32]` into an array.
pub fn read_bytes32(b: &[u8], at: usize) -> (r: [u8; 32])
    requires
        at + 32 <= b@.len(),
    ensures
        r@ == b@.subrange(at as int, at + 32),
{
    let mut r = [0u8; 32];
    let n = b.len();
    let mut i: usize = 0;
    while i < 32
        invariant
            0 <= i <= 32,
            n == b@.len(),
            at + 32 <= n,
            r@.len() == 32,
            forall|j: int| 0 <= j < i ==> r@[j] == b@[at + j],
        decreases 32 - i,
    {
        r[i] = b[at + i];
        i = i + 1;
    }
    assert(r@ =~= b@.subrange(at as int, at + 32));
    r
}

} // verus!
