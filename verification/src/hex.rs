//! Lowercase hexadecimal text of bytes, as the `hex` crate writes it.
use vstd::prelude::*;

verus! {

/// The lowercase hexadecimal digit of `d`, for `d < 16`.
pub open spec fn hex_digit(d: int) -> char {
    if d < 10 {
        (48 + d) as char
    } else {
        (87 + d) as char
    }
}

/// Two lowercase hexadecimal digits per byte, high half first.
pub open spec fn hex_chars(b: Seq<u8>) -> Seq<char>
    decreases b.len(),
{
    if b.len() == 0 {
        Seq::empty()
    } else {
        seq![hex_digit((b[0] / 16) as int), hex_digit((b[0] % 16) as int)] + hex_chars(b.drop_first())
    }
}

/// Calls `hex::encode`, which writes each byte of its input as two lowercase
/// hexadecimal digits from the table `0123456789abcdef`, the high half
/// first.
#[verifier::external_body]
pub(crate) fn hex_encode(bytes: &[u8; 32]) -> (s: String)
    ensures
        s@ == hex_chars(bytes@),
{
    hex::encode(bytes)
}

/// The text of `b` is twice as long as `b`.
pub proof fn lemma_hex_chars_len(b: Seq<u8>)
    ensures
        hex_chars(b).len() == 2 * b.len(),
    decreases b.len(),
{
    if b.len() > 0 {
        lemma_hex_chars_len(b.drop_first());
    }
}

/// A hexadecimal digit determines the number it stands for.
pub proof fn lemma_hex_digit_injective(d: int, e: int)
    requires
        0 <= d < 16,
        0 <= e < 16,
        hex_digit(d) == hex_digit(e),
    ensures
        d == e,
{
    if d < 10 && e < 10 {
        assert((48 + d) as char == (48 + e) as char);
        assert(((48 + d) as char) as int == 48 + d);
        assert(((48 + e) as char) as int == 48 + e);
    } else if d >= 10 && e >= 10 {
        assert(((87 + d) as char) as int == 87 + d);
        assert(((87 + e) as char) as int == 87 + e);
    } else if d < 10 {
        assert(((48 + d) as char) as int == 48 + d);
        assert(((87 + e) as char) as int == 87 + e);
    } else {
        assert(((87 + d) as char) as int == 87 + d);
        assert(((48 + e) as char) as int == 48 + e);
    }
}

/// Different bytes of the same length have different text: the text
/// determines the bytes.
pub proof fn lemma_hex_chars_injective(a: Seq<u8>, b: Seq<u8>)
    requires
        a.len() == b.len(),
        hex_chars(a) == hex_chars(b),
    ensures
        a == b,
    decreases a.len(),
{
    if a.len() > 0 {
        let ha = hex_chars(a);
        let hb = hex_chars(b);
        assert(ha[0] == hex_digit((a[0] / 16) as int));
        assert(hb[0] == hex_digit((b[0] / 16) as int));
        assert(ha[1] == hex_digit((a[0] % 16) as int));
        assert(hb[1] == hex_digit((b[0] % 16) as int));
        lemma_hex_digit_injective((a[0] / 16) as int, (b[0] / 16) as int);
        lemma_hex_digit_injective((a[0] % 16) as int, (b[0] % 16) as int);
        assert(a[0] == b[0]);
        assert(hex_chars(a.drop_first()) =~= ha.subrange(2, ha.len() as int));
        assert(hex_chars(b.drop_first()) =~= hb.subrange(2, hb.len() as int));
        lemma_hex_chars_injective(a.drop_first(), b.drop_first());
        assert(a =~= seq![a[0]] + a.drop_first());
        assert(b =~= seq![b[0]] + b.drop_first());
    }
}

} // verus!
