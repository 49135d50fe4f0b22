//! Little-endian integers in byte buffers, read and written through
//! `byteorder`.

use vstd::prelude::*;
use byteorder::{ByteOrder, LittleEndian};

verus! {

/// The unsigned value of `b` read as a little-endian integer.
pub open spec fn le_value(b: Seq<u8>) -> nat
    decreases b.len(),
{
    if b.len() == 0 {
        0
    } else {
        b[0] as nat + 256 * le_value(b.drop_first())
    }
}

/// The `n` low bytes of `x`, least significant first.
pub open spec fn le_bytes(x: nat, n: nat) -> Seq<u8>
    decreases n,
{
    if n == 0 {
        Seq::empty()
    } else {
        seq![(x % 256) as u8] + le_bytes(x / 256, (n - 1) as nat)
    }
}

/// `256` to the power `n`: the number of values `n` bytes hold.
pub open spec fn byte_range(n: nat) -> nat
    decreases n,
{
    if n == 0 {
        1
    } else {
        256 * byte_range((n - 1) as nat)
    }
}

/// The two's-complement value of the unsigned `u` of `n` bytes.
pub open spec fn signed_of(u: nat, n: nat) -> int {
    if n > 0 && u >= byte_range(n) / 2 {
        u - byte_range(n)
    } else {
        u as int
    }
}

/// The `n`-byte two's-complement pattern of `v`, as an unsigned value.
pub open spec fn unsigned_of(v: int, n: nat) -> nat {
    if v < 0 {
        (v + byte_range(n)) as nat
    } else {
        v as nat
    }
}

/// The little-endian bytes of the signed `v` of `n` bytes.
pub open spec fn le_of_signed(v: int, n: nat) -> Seq<u8> {
    le_bytes(unsigned_of(v, n), n)
}

/// `n` zero bytes.
pub open spec fn zeros(n: nat) -> Seq<u8> {
    Seq::new(n, |i: int| 0u8)
}

/// The eight-byte little-endian words `s`, one after the other.
pub open spec fn le_words(s: Seq<u64>) -> Seq<u8>
    decreases s.len(),
{
    if s.len() == 0 {
        Seq::empty()
    } else {
        le_words(s.drop_last()) + le_bytes(s.last() as nat, 8)
    }
}

/// The four-byte little-endian words `s`, one after the other.
pub open spec fn le_halfwords(s: Seq<u32>) -> Seq<u8>
    decreases s.len(),
{
    if s.len() == 0 {
        Seq::empty()
    } else {
        le_halfwords(s.drop_last()) + le_bytes(s.last() as nat, 4)
    }
}

/// The `n` bytes of `b` from `pos` on.
pub open spec fn field(b: Seq<u8>, pos: int, n: int) -> Seq<u8> {
    b.subrange(pos, pos + n)
}

/// The number of values of 2, 4 and 8 bytes.
pub proof fn lemma_byte_ranges()
    ensures
        byte_range(2) == 0x1_0000,
        byte_range(4) == 0x1_0000_0000,
        byte_range(8) == 0x1_0000_0000_0000_0000,
{
    reveal_with_fuel(byte_range, 9);
}

/// `n` bytes written from a value below `256^n` read back as that value.
pub proof fn lemma_le_roundtrip(x: nat, n: nat)
    requires
        x < byte_range(n),
    ensures
        le_bytes(x, n).len() == n,
        le_value(le_bytes(x, n)) == x,
    decreases n,
{
    if n > 0 {
        let r = byte_range((n - 1) as nat);
        assert(x / 256 < r) by (nonlinear_arith)
            requires
                x < 256 * r,
        ;
        lemma_le_roundtrip(x / 256, (n - 1) as nat);
        let b = le_bytes(x, n);
        assert(b.drop_first() =~= le_bytes(x / 256, (n - 1) as nat));
        assert(x == x % 256 + 256 * (x / 256)) by (nonlinear_arith);
    } else {
        assert(x == 0);
    }
}

/// The signed `v` written in `n` bytes reads back, as a signed value, as `v`.
pub proof fn lemma_le_signed_roundtrip(v: int, n: nat)
    requires
        n > 0,
        -(byte_range(n) / 2) <= v < byte_range(n) / 2,
    ensures
        le_of_signed(v, n).len() == n,
        signed_of(le_value(le_of_signed(v, n)), n) == v,
{
    assert(byte_range(n) == 256 * byte_range((n - 1) as nat));
    lemma_le_roundtrip(unsigned_of(v, n), n);
}

/// The word `k` of `le_words(s)` is the eight bytes of `s[k]`.
pub proof fn lemma_le_words(s: Seq<u64>, k: int)
    requires
        0 <= k < s.len(),
    ensures
        le_words(s).len() == 8 * s.len(),
        field(le_words(s), 8 * k, 8) == le_bytes(s[k] as nat, 8),
        le_value(field(le_words(s), 8 * k, 8)) == s[k],
    decreases s.len(),
{
    lemma_byte_ranges();
    lemma_le_roundtrip(s[k] as nat, 8);
    lemma_le_words_len(s);
    let d = s.drop_last();
    lemma_le_words_len(d);
    lemma_le_roundtrip(s.last() as nat, 8);
    if k < s.len() - 1 {
        lemma_le_words(d, k);
        assert(field(le_words(s), 8 * k, 8) =~= field(le_words(d), 8 * k, 8));
    } else {
        assert(field(le_words(s), 8 * k, 8) =~= le_bytes(s.last() as nat, 8));
    }
}

/// `le_words(s)` has eight bytes for each word.
pub proof fn lemma_le_words_len(s: Seq<u64>)
    ensures
        le_words(s).len() == 8 * s.len(),
    decreases s.len(),
{
    if s.len() > 0 {
        lemma_le_words_len(s.drop_last());
        lemma_byte_ranges();
        lemma_le_roundtrip(s.last() as nat, 8);
    }
}

/// The word `k` of `le_halfwords(s)` is the four bytes of `s[k]`.
pub proof fn lemma_le_halfwords(s: Seq<u32>, k: int)
    requires
        0 <= k < s.len(),
    ensures
        le_halfwords(s).len() == 4 * s.len(),
        field(le_halfwords(s), 4 * k, 4) == le_bytes(s[k] as nat, 4),
        le_value(field(le_halfwords(s), 4 * k, 4)) == s[k],
    decreases s.len(),
{
    lemma_byte_ranges();
    lemma_le_roundtrip(s[k] as nat, 4);
    lemma_le_halfwords_len(s);
    let d = s.drop_last();
    lemma_le_halfwords_len(d);
    lemma_le_roundtrip(s.last() as nat, 4);
    if k < s.len() - 1 {
        lemma_le_halfwords(d, k);
        assert(field(le_halfwords(s), 4 * k, 4) =~= field(le_halfwords(d), 4 * k, 4));
    } else {
        assert(field(le_halfwords(s), 4 * k, 4) =~= le_bytes(s.last() as nat, 4));
    }
}

/// `le_halfwords(s)` has four bytes for each word.
pub proof fn lemma_le_halfwords_len(s: Seq<u32>)
    ensures
        le_halfwords(s).len() == 4 * s.len(),
    decreases s.len(),
{
    if s.len() > 0 {
        lemma_le_halfwords_len(s.drop_last());
        lemma_byte_ranges();
        lemma_le_roundtrip(s.last() as nat, 4);
    }
}

/// Appends `n` zero bytes to `out`.
pub(crate) fn push_zeros(out: &mut Vec<u8>, n: usize)
    ensures
        final(out)@ == old(out)@ + zeros(n as nat),
{
    let mut i: usize = 0;
    while i < n
        invariant
            i <= n,
            out@ == old(out)@ + zeros(i as nat),
        decreases n - i,
    {
        out.push(0u8);
        i = i + 1;
        assert(out@ =~= old(out)@ + zeros(i as nat));
    }
}

/// Appends the little-endian words `words` to `out`.
pub(crate) fn push_words(out: &mut Vec<u8>, words: &Vec<u64>)
    ensures
        final(out)@ == old(out)@ + le_words(words@),
{
    let mut i: usize = 0;
    while i < words.len()
        invariant
            i <= words@.len(),
            out@ == old(out)@ + le_words(words@.take(i as int)),
        decreases words@.len() - i,
    {
        let ghost before = out@;
        push_u64(out, words[i]);
        let ghost t = words@.take(i + 1);
        assert(t.drop_last() =~= words@.take(i as int));
        i = i + 1;
        assert(out@ =~= old(out)@ + le_words(words@.take(i as int)));
    }
    assert(words@.take(words@.len() as int) =~= words@);
}

/// Appends the little-endian four-byte words `words` to `out`.
pub(crate) fn push_halfwords(out: &mut Vec<u8>, words: &Vec<u32>)
    ensures
        final(out)@ == old(out)@ + le_halfwords(words@),
{
    let mut i: usize = 0;
    while i < words.len()
        invariant
            i <= words@.len(),
            out@ == old(out)@ + le_halfwords(words@.take(i as int)),
        decreases words@.len() - i,
    {
        push_u32(out, words[i]);
        let ghost t = words@.take(i + 1);
        assert(t.drop_last() =~= words@.take(i as int));
        i = i + 1;
        assert(out@ =~= old(out)@ + le_halfwords(words@.take(i as int)));
    }
    assert(words@.take(words@.len() as int) =~= words@);
}

/// `LittleEndian::read_u64` on the eight bytes of `bytes` from `pos` on.
#[verifier::external_body]
pub(crate) fn read_u64_at(bytes: &[u8], pos: usize) -> (v: u64)
    requires
        pos + 8 <= bytes@.len(),
    ensures
        v as nat == le_value(field(bytes@, pos as int, 8)),
{
    LittleEndian::read_u64(&bytes[pos..pos + 8])
}

/// `LittleEndian::read_u32` on the four bytes of `bytes` from `pos` on.
#[verifier::external_body]
pub(crate) fn read_u32_at(bytes: &[u8], pos: usize) -> (v: u32)
    requires
        pos + 4 <= bytes@.len(),
    ensures
        v as nat == le_value(field(bytes@, pos as int, 4)),
{
    LittleEndian::read_u32(&bytes[pos..pos + 4])
}

/// `LittleEndian::read_i32` on the four bytes of `bytes` from `pos` on.
#[verifier::external_body]
pub(crate) fn read_i32_at(bytes: &[u8], pos: usize) -> (v: i32)
    requires
        pos + 4 <= bytes@.len(),
    ensures
        v as int == signed_of(le_value(field(bytes@, pos as int, 4)), 4),
{
    LittleEndian::read_i32(&bytes[pos..pos + 4])
}

/// `LittleEndian::read_i16` on the two bytes of `bytes` from `pos` on.
#[verifier::external_body]
pub(crate) fn read_i16_at(bytes: &[u8], pos: usize) -> (v: i16)
    requires
        pos + 2 <= bytes@.len(),
    ensures
        v as int == signed_of(le_value(field(bytes@, pos as int, 2)), 2),
{
    LittleEndian::read_i16(&bytes[pos..pos + 2])
}

/// `LittleEndian::write_u64` into eight new bytes at the end of `out`.
#[verifier::external_body]
pub(crate) fn push_u64(out: &mut Vec<u8>, v: u64)
    ensures
        final(out)@ == old(out)@ + le_bytes(v as nat, 8),
{
    let mut buf = [0u8; 8];
    LittleEndian::write_u64(&mut buf, v);
    out.extend_from_slice(&buf);
}

/// `LittleEndian::write_u32` into four new bytes at the end of `out`.
#[verifier::external_body]
pub(crate) fn push_u32(out: &mut Vec<u8>, v: u32)
    ensures
        final(out)@ == old(out)@ + le_bytes(v as nat, 4),
{
    let mut buf = [0u8; 4];
    LittleEndian::write_u32(&mut buf, v);
    out.extend_from_slice(&buf);
}

/// `LittleEndian::write_i32` into four new bytes at the end of `out`.
#[verifier::external_body]
pub(crate) fn push_i32(out: &mut Vec<u8>, v: i32)
    ensures
        final(out)@ == old(out)@ + le_of_signed(v as int, 4),
{
    let mut buf = [0u8; 4];
    LittleEndian::write_i32(&mut buf, v);
    out.extend_from_slice(&buf);
}

/// `LittleEndian::write_i16` into two new bytes at the end of `out`.
#[verifier::external_body]
pub(crate) fn push_i16(out: &mut Vec<u8>, v: i16)
    ensures
        final(out)@ == old(out)@ + le_of_signed(v as int, 2),
{
    let mut buf = [0u8; 2];
    LittleEndian::write_i16(&mut buf, v);
    out.extend_from_slice(&buf);
}

} // verus!
