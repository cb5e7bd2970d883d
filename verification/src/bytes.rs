//! Byte strings: big-endian numbers, concatenation and masking.

use vstd::prelude::*;
use crate::error::AAKAError;

verus! {

/// The number that a byte string stands for, most significant byte first.
pub open spec fn be_value(s: Seq<u8>) -> nat
    decreases s.len(),
{
    if s.len() == 0 {
        0
    } else {
        be_value(s.drop_last()) * 256 + s.last() as nat
    }
}

/// The lowest `n` base-256 digits of `v`, most significant first.
pub open spec fn be_bytes(v: nat, n: nat) -> Seq<u8>
    decreases n,
{
    if n == 0 {
        Seq::<u8>::empty()
    } else {
        be_bytes(v / 256, (n - 1) as nat).push((v % 256) as u8)
    }
}

/// 256 to the power `n`.
pub open spec fn pow256(n: nat) -> nat
    decreases n,
{
    if n == 0 {
        1
    } else {
        256 * pow256((n - 1) as nat)
    }
}

/// The number that a byte string stands for, least significant byte first.
pub open spec fn le_value(s: Seq<u8>) -> nat
    decreases s.len(),
{
    if s.len() == 0 {
        0
    } else {
        s[0] as nat + 256 * le_value(s.drop_first())
    }
}

/// The lowest `n` base-256 digits of `v`, least significant first.
pub open spec fn le_bytes(v: nat, n: nat) -> Seq<u8>
    decreases n,
{
    if n == 0 {
        Seq::<u8>::empty()
    } else {
        seq![(v % 256) as u8] + le_bytes(v / 256, (n - 1) as nat)
    }
}

/// Byte by byte, the exclusive or of two strings of the same length.
pub open spec fn xor_seq(a: Seq<u8>, b: Seq<u8>) -> Seq<u8>
    recommends
        a.len() == b.len(),
{
    Seq::new(a.len(), |i: int| a[i] ^ b[i])
}

/// `le_bytes` has the length asked for.
pub proof fn lemma_le_bytes_len(v: nat, n: nat)
    ensures
        le_bytes(v, n).len() == n,
    decreases n,
{
    if n > 0 {
        lemma_le_bytes_len(v / 256, (n - 1) as nat);
    }
}

/// 256 to the eighth power is two to the sixty-fourth.
pub proof fn lemma_pow256_8()
    ensures
        pow256(8) == 0x1_0000_0000_0000_0000,
{
    assert(pow256(0) == 1);
    assert(pow256(1) == 0x100);
    assert(pow256(2) == 0x1_0000);
    assert(pow256(3) == 0x100_0000);
    assert(pow256(4) == 0x1_0000_0000);
    assert(pow256(5) == 0x100_0000_0000);
    assert(pow256(6) == 0x1_0000_0000_0000);
    assert(pow256(7) == 0x100_0000_0000_0000);
}

/// The power of a sum is the product of the powers.
pub proof fn lemma_pow256_add(a: nat, b: nat)
    ensures
        pow256(a + b) == pow256(a) * pow256(b),
    decreases a,
{
    if a == 0 {
        assert(pow256(0 + b) == 1 * pow256(b));
    } else {
        lemma_pow256_add((a - 1) as nat, b);
        assert(pow256(a + b) == 256 * pow256((a - 1 + b) as nat));
        assert(256 * (pow256((a - 1) as nat) * pow256(b)) == (256 * pow256((a - 1) as nat))
            * pow256(b)) by (nonlinear_arith);
    }
}

/// A string of `n` bytes stands for a number below 256 to the `n`.
pub proof fn lemma_le_value_bound(s: Seq<u8>)
    ensures
        le_value(s) < pow256(s.len()),
    decreases s.len(),
{
    if s.len() > 0 {
        lemma_le_value_bound(s.drop_first());
    }
}

/// The value of two strings joined: the first, and the second shifted
/// past it.
pub proof fn lemma_le_value_concat(a: Seq<u8>, b: Seq<u8>)
    ensures
        le_value(a + b) == le_value(a) + pow256(a.len()) * le_value(b),
    decreases a.len(),
{
    if a.len() == 0 {
        assert(a + b =~= b);
        assert(pow256(0) == 1);
        assert(le_value(a) == 0);
    } else {
        assert((a + b).drop_first() =~= a.drop_first() + b);
        assert((a + b)[0] == a[0]);
        lemma_le_value_concat(a.drop_first(), b);
        let rest = le_value(b);
        let p = pow256((a.len() - 1) as nat);
        assert(pow256(a.len()) == 256 * p);
        assert(256 * (p * rest) == (256 * p) * rest) by (nonlinear_arith);
        assert(le_value(a + b) == a[0] as nat + 256 * le_value(a.drop_first() + b));
        assert(le_value(a) == a[0] as nat + 256 * le_value(a.drop_first()));
    }
}

/// The digits of a number fall into the digits of its low part and those
/// of what is left above it.
pub proof fn lemma_le_bytes_concat(low: nat, high: nat, k: nat, n: nat)
    requires
        low < pow256(k),
    ensures
        le_bytes(low + pow256(k) * high, k + n) == le_bytes(low, k) + le_bytes(high, n),
    decreases k,
{
    if k == 0 {
        assert(le_bytes(low, 0) + le_bytes(high, n) =~= le_bytes(high, n));
        assert(pow256(0) * high == high) by (nonlinear_arith)
            requires
                pow256(0) == 1,
        ;
    } else {
        let p = pow256((k - 1) as nat);
        let v = low + pow256(k) * high;
        assert(pow256(k) * high == 256 * (p * high)) by (nonlinear_arith)
            requires
                pow256(k) == 256 * p,
        ;
        assert(v == 256 * (p * high) + low);
        assert(v % 256 == low % 256 && v / 256 == low / 256 + p * high) by {
            vstd::arithmetic::div_mod::lemma_fundamental_div_mod(low as int, 256);
            vstd::arithmetic::div_mod::lemma_fundamental_div_mod_converse(
                v as int,
                256,
                (low / 256 + p * high) as int,
                (low % 256) as int,
            );
        }
        assert(low / 256 < p);
        lemma_le_bytes_concat(low / 256, high, (k - 1) as nat, n);
        assert(le_bytes(v, k + n) == seq![(v % 256) as u8] + le_bytes(
            v / 256,
            (k + n - 1) as nat,
        ));
        assert(le_bytes(low, k) == seq![(low % 256) as u8] + le_bytes(low / 256, (k - 1) as nat));
        assert(le_bytes(v, k + n) =~= le_bytes(low, k) + le_bytes(high, n));
    }
}

/// Reading the digits of a number gives the number back, where it has no
/// more digits than were written.
pub proof fn lemma_le_value_of_bytes(v: nat, n: nat)
    requires
        v < pow256(n),
    ensures
        le_value(le_bytes(v, n)) == v,
    decreases n,
{
    if n > 0 {
        let rest = le_bytes(v / 256, (n - 1) as nat);
        assert(v / 256 < pow256((n - 1) as nat));
        lemma_le_value_of_bytes(v / 256, (n - 1) as nat);
        assert(le_bytes(v, n).drop_first() =~= rest);
        assert(le_bytes(v, n)[0] == (v % 256) as u8);
    }
}

/// Writing the digits of the number that a string stands for gives the
/// string back.
pub proof fn lemma_le_bytes_of_value(s: Seq<u8>)
    ensures
        le_bytes(le_value(s), s.len()) == s,
    decreases s.len(),
{
    if s.len() > 0 {
        lemma_le_bytes_of_value(s.drop_first());
        let v = le_value(s);
        let rest = le_value(s.drop_first());
        assert(v % 256 == s[0] as nat && v / 256 == rest) by {
            vstd::arithmetic::div_mod::lemma_fundamental_div_mod_converse(
                v as int,
                256,
                rest as int,
                s[0] as int,
            );
        }
        assert(le_bytes(v, s.len()) =~= s);
    } else {
        assert(le_bytes(le_value(s), 0) =~= s);
    }
}

/// Masking twice with the same mask gives the data back.
pub proof fn lemma_xor_twice(mask: Seq<u8>, data: Seq<u8>)
    requires
        data.len() == mask.len(),
    ensures
        xor_seq(mask, xor_seq(mask, data)) == data,
{
    assert forall|i: int| 0 <= i < data.len() implies mask[i] ^ (mask[i] ^ data[i]) == data[i] by {
        let d = data[i];
        let m = mask[i];
        assert(m ^ (m ^ d) == d) by (bit_vector);
    }
    assert(xor_seq(mask, xor_seq(mask, data)) =~= data);
}

/// Whether two byte strings are equal.
pub fn same_bytes(a: &Vec<u8>, b: &Vec<u8>) -> (r: bool)
    ensures
        r == (a@ == b@),
{
    if a.len() != b.len() {
        return false;
    }
    let mut i: usize = 0;
    while i < a.len()
        invariant
            a.len() == b.len(),
            i <= a.len(),
            forall|j: int| 0 <= j < i ==> a@[j] == b@[j],
        decreases a.len() - i,
    {
        if a[i] != b[i] {
            return false;
        }
        i += 1;
    }
    assert(a@ =~= b@);
    true
}

/// Appends `src` to `dst`.
pub fn append_bytes(dst: &mut Vec<u8>, src: &[u8])
    ensures
        final(dst)@ == old(dst)@ + src@,
{
    let mut i: usize = 0;
    while i < src.len()
        invariant
            i <= src.len(),
            dst@ == old(dst)@ + src@.subrange(0, i as int),
        decreases src.len() - i,
    {
        dst.push(src[i]);
        i += 1;
        assert(dst@ =~= old(dst)@ + src@.subrange(0, i as int));
    }
    assert(src@.subrange(0, src.len() as int) =~= src@);
}

/// The bytes of `s` from `from` up to `to`.
pub fn slice_bytes(s: &[u8], from: usize, to: usize) -> (r: Vec<u8>)
    requires
        from <= to <= s.len(),
    ensures
        r@ == s@.subrange(from as int, to as int),
{
    let mut out: Vec<u8> = Vec::new();
    let mut i: usize = from;
    while i < to
        invariant
            from <= i <= to <= s.len(),
            out@ == s@.subrange(from as int, i as int),
        decreases to - i,
    {
        out.push(s[i]);
        i += 1;
        assert(out@ =~= s@.subrange(from as int, i as int));
    }
    out
}

/// The eight bytes of `v`, least significant first.
pub fn u64_le_bytes(v: u64) -> (r: Vec<u8>)
    ensures
        r@ == le_bytes(v as nat, 8),
{
    let mut out: Vec<u8> = Vec::new();
    let mut rest: u64 = v;
    let mut k: usize = 0;
    assert(out@ + le_bytes(rest as nat, 8) =~= le_bytes(v as nat, 8));
    while k < 8
        invariant
            k <= 8,
            out@.len() == k,
            le_bytes(v as nat, 8) == out@ + le_bytes(rest as nat, (8 - k) as nat),
        decreases 8 - k,
    {
        let ghost before = out@;
        out.push((rest % 256) as u8);
        proof {
            assert(le_bytes(rest as nat, (8 - k) as nat) == seq![(rest as nat % 256) as u8]
                + le_bytes(rest as nat / 256, (8 - k - 1) as nat));
            assert(before + le_bytes(rest as nat, (8 - k) as nat) =~= out@ + le_bytes(
                rest as nat / 256,
                (8 - k - 1) as nat,
            ));
        }
        rest = rest / 256;
        k += 1;
    }
    assert(out@ + le_bytes(rest as nat, 0) =~= out@);
    out
}

/// The number that the eight bytes of `s` from `offset` on stand for,
/// least significant first.
pub fn u64_from_le_bytes(s: &[u8], offset: usize) -> (r: u64)
    requires
        offset + 8 <= s.len(),
    ensures
        r == le_value(s@.subrange(offset as int, offset + 8)),
{
    let mut acc: u64 = 0;
    let mut k: usize = 0;
    assert(s@.subrange(offset + 8, offset + 8) =~= Seq::<u8>::empty());
    while k < 8
        invariant
            k <= 8,
            offset + 8 <= s.len(),
            acc == le_value(s@.subrange(offset + 8 - k, offset + 8)),
            acc < pow256(k as nat),
        decreases 8 - k,
    {
        let byte = s[offset + 7 - k];
        proof {
            let longer = s@.subrange(offset + 7 - k, offset + 8);
            assert(longer.drop_first() =~= s@.subrange(offset + 8 - k, offset + 8));
            assert(longer[0] == byte);
            lemma_le_value_bound(longer);
            assert(pow256((k + 1) as nat) == 256 * pow256(k as nat));
            lemma_pow256_8();
            if k < 7 {
                lemma_pow256_add((k + 1) as nat, (7 - k) as nat);
                assert(pow256((7 - k) as nat) >= 1) by {
                    lemma_le_value_bound(Seq::<u8>::new((7 - k) as nat, |i: int| 0u8));
                }
                assert(pow256((k + 1) as nat) <= pow256(8)) by (nonlinear_arith)
                    requires
                        pow256(8) == pow256((k + 1) as nat) * pow256((7 - k) as nat),
                        pow256((7 - k) as nat) >= 1,
                ;
            }
        }
        acc = acc * 256 + byte as u64;
        k += 1;
    }
    acc
}

/// The lowest `n` base-256 digits of `v`, most significant first.
fn be_digits(v: u64, n: usize) -> (r: Vec<u8>)
    requires
        n <= 8,
    ensures
        r@ == be_bytes(v as nat, n as nat),
{
    let mut digits: Vec<u8> = Vec::new();
    let mut rest: u64 = v;
    let mut k: usize = 0;
    // The digits come out least significant first.
    while k < n
        invariant
            k <= n,
            digits@.len() == k,
            be_bytes(v as nat, n as nat) == be_bytes(rest as nat, (n - k) as nat)
                + digits@.reverse(),
        decreases n - k,
    {
        let ghost before = digits@;
        digits.push((rest % 256) as u8);
        proof {
            assert(digits@.reverse() =~= seq![(rest % 256) as u8] + before.reverse());
            assert(be_bytes(rest as nat, (n - k) as nat) == be_bytes(
                rest as nat / 256,
                (n - k - 1) as nat,
            ).push((rest as nat % 256) as u8));
            assert(be_bytes(rest as nat, (n - k) as nat) + before.reverse() =~= be_bytes(
                rest as nat / 256,
                (n - k - 1) as nat,
            ) + digits@.reverse());
        }
        rest = rest / 256;
        k += 1;
    }
    let mut out: Vec<u8> = Vec::new();
    let mut i: usize = n;
    while i > 0
        invariant
            i <= n,
            digits@.len() == n,
            out@ == digits@.reverse().subrange(0, n - i),
        decreases i,
    {
        i -= 1;
        out.push(digits[i]);
        assert(out@ =~= digits@.reverse().subrange(0, n - i));
    }
    assert(out@ =~= digits@.reverse());
    assert(be_bytes(rest as nat, 0) + digits@.reverse() =~= digits@.reverse());
    out
}

/// The eight bytes of `v`, most significant first.
pub fn u64_be_bytes(v: u64) -> (r: Vec<u8>)
    ensures
        r@ == be_bytes(v as nat, 8),
{
    be_digits(v, 8)
}

/// The four bytes of `v`, most significant first.
pub fn u32_be_bytes(v: u32) -> (r: Vec<u8>)
    ensures
        r@ == be_bytes(v as nat, 4),
{
    be_digits(v as u64, 4)
}

/// Masks `data` with `mask`, byte by byte. The two must be of one length:
/// where they are not, the call fails with `HashError`.
pub fn xor_mask(mask: &[u8], data: &[u8]) -> (r: Result<Vec<u8>, AAKAError>)
    ensures
        data@.len() == mask@.len() ==> r is Ok && r->Ok_0@ == xor_seq(mask@, data@),
        data@.len() != mask@.len() ==> r is Err && r->Err_0 is HashError,
{
    if data.len() != mask.len() {
        return Err(AAKAError::HashError("mask and data differ in length".to_owned()));
    }
    let mut out: Vec<u8> = Vec::new();
    let mut i: usize = 0;
    while i < data.len()
        invariant
            data.len() == mask.len(),
            i <= data.len(),
            out@.len() == i,
            forall|j: int| 0 <= j < i ==> out@[j] == mask@[j] ^ data@[j],
        decreases data.len() - i,
    {
        out.push(mask[i] ^ data[i]);
        i += 1;
    }
    assert(out@ =~= xor_seq(mask@, data@));
    Ok(out)
}

} // verus!
