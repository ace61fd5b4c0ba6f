//! Byte-level utilities shared by the pipeline: ASCII case folding,
//! byte-sequence equality, decimal and hexadecimal rendering, and the
//! keyed digest used by the pluggable signing strategy.

use vstd::prelude::*;

verus! {

/// ASCII lower-casing of a single byte.
pub open spec fn lower_byte(b: u8) -> u8 {
    if 65 <= b && b <= 90 {
        (b + 32) as u8
    } else {
        b
    }
}

/// ASCII lower-casing of a byte sequence.
pub open spec fn lower_seq(s: Seq<u8>) -> Seq<u8> {
    s.map_values(|b: u8| lower_byte(b))
}

/// Lower-cases a byte vector, byte for byte.
pub fn lower_vec(v: &Vec<u8>) -> (r: Vec<u8>)
    ensures
        r@ == lower_seq(v@),
{
    let mut r: Vec<u8> = Vec::new();
    let mut i: usize = 0;
    while i < v.len()
        invariant
            i <= v.len(),
            r@ == lower_seq(v@.take(i as int)),
        decreases v.len() - i,
    {
        let b = v[i];
        let lb: u8 = if 65 <= b && b <= 90 { b + 32 } else { b };
        r.push(lb);
        proof {
            assert(r@ =~= lower_seq(v@.take(i + 1 as int)));
        }
        i = i + 1;
    }
    proof {
        assert(v@.take(v@.len() as int) =~= v@);
    }
    r
}

/// Byte-for-byte equality of two vectors.
pub fn bytes_eq(a: &Vec<u8>, b: &Vec<u8>) -> (r: bool)
    ensures
        r == (a@ == b@),
{
    if a.len() != b.len() {
        return false;
    }
    let mut i: usize = 0;
    while i < a.len()
        invariant
            i <= a.len(),
            a@.len() == b@.len(),
            forall|j: int| 0 <= j < i ==> a@[j] == b@[j],
        decreases a.len() - i,
    {
        if a[i] != b[i] {
            return false;
        }
        i = i + 1;
    }
    proof {
        assert(a@ =~= b@);
    }
    true
}

/// Appends all of `src` to `dst`.
pub fn push_all(dst: &mut Vec<u8>, src: &Vec<u8>)
    ensures
        final(dst)@ == old(dst)@ + src@,
{
    let mut i: usize = 0;
    while i < src.len()
        invariant
            i <= src.len(),
            dst@ == old(dst)@ + src@.take(i as int),
        decreases src.len() - i,
    {
        dst.push(src[i]);
        proof {
            assert(old(dst)@ + src@.take(i + 1 as int) =~= (old(dst)@ + src@.take(
                i as int,
            )).push(src@[i as int]));
        }
        i = i + 1;
    }
    proof {
        assert(src@.take(src@.len() as int) =~= src@);
    }
}

/// A fresh copy of a byte vector.
pub fn copy_vec(v: &Vec<u8>) -> (r: Vec<u8>)
    ensures
        r@ == v@,
{
    let mut r: Vec<u8> = Vec::new();
    push_all(&mut r, v);
    proof {
        assert(Seq::<u8>::empty() + v@ =~= v@);
    }
    r
}

/// Decimal rendering of a natural number, most significant digit first.
pub open spec fn dec_seq(n: nat) -> Seq<u8>
    decreases n,
{
    if n < 10 {
        seq![(48 + n) as u8]
    } else {
        dec_seq(n / 10).push((48 + n % 10) as u8)
    }
}

/// Renders `n` in decimal ASCII digits.
pub fn dec_vec(n: u64) -> (r: Vec<u8>)
    ensures
        r@ == dec_seq(n as nat),
    decreases n,
{
    if n < 10 {
        let mut r: Vec<u8> = Vec::new();
        r.push(48 + (n as u8));
        proof {
            assert(r@ =~= dec_seq(n as nat));
        }
        r
    } else {
        let mut r = dec_vec(n / 10);
        r.push(48 + ((n % 10) as u8));
        r
    }
}

/// One lower-case hexadecimal digit for a nibble.
pub open spec fn hex_digit(n: u8) -> u8 {
    if n < 10 {
        (48 + n) as u8
    } else {
        (87 + n) as u8
    }
}

/// One upper-case hexadecimal digit for a nibble.
pub open spec fn hex_digit_upper(n: u8) -> u8 {
    if n < 10 {
        (48 + n) as u8
    } else {
        (55 + n) as u8
    }
}

/// Fixed-width lower-case hexadecimal rendering, `digits` nibbles wide.
pub open spec fn hex_seq(x: nat, digits: nat) -> Seq<u8>
    decreases digits,
{
    if digits == 0 {
        Seq::<u8>::empty()
    } else {
        hex_seq(x / 16, (digits - 1) as nat).push(hex_digit((x % 16) as u8))
    }
}

/// Renders `x` as exactly `digits` lower-case hexadecimal digits.
pub fn hex_vec(x: u64, digits: usize) -> (r: Vec<u8>)
    ensures
        r@ == hex_seq(x as nat, digits as nat),
    decreases digits,
{
    if digits == 0 {
        Vec::new()
    } else {
        let mut r = hex_vec(x / 16, digits - 1);
        let nib: u8 = (x % 16) as u8;
        let d: u8 = if nib < 10 { 48 + nib } else { 87 + nib };
        r.push(d);
        r
    }
}

/// One step of the keyed rotate-xor digest.
pub open spec fn mix(acc: u64, b: u8) -> u64 {
    (((acc << 7) | (acc >> 57)) ^ (b as u64)) as u64
}

/// Digest of a byte sequence folded from the left onto `init`.
pub open spec fn digest_from(init: u64, s: Seq<u8>) -> u64
    decreases s.len(),
{
    if s.len() == 0 {
        init
    } else {
        mix(digest_from(init, s.drop_last()), s.last())
    }
}

/// Folds the digest over a vector.
pub fn digest_vec(init: u64, v: &Vec<u8>) -> (r: u64)
    ensures
        r == digest_from(init, v@),
{
    let mut acc: u64 = init;
    let mut i: usize = 0;
    while i < v.len()
        invariant
            i <= v.len(),
            acc == digest_from(init, v@.take(i as int)),
        decreases v.len() - i,
    {
        let b = v[i];
        acc = ((acc << 7u64) | (acc >> 57u64)) ^ (b as u64);
        proof {
            assert(v@.take(i + 1 as int).drop_last() =~= v@.take(i as int));
            assert(v@.take(i + 1 as int).last() == v@[i as int]);
        }
        i = i + 1;
    }
    proof {
        assert(v@.take(v@.len() as int) =~= v@);
    }
    acc
}

} // verus!
