//! Reading integers back from their wire form.

use vstd::prelude::*;
use crate::contact_info::be_bytes;
use crate::wire::{enc_bytes, enc_u16, enc_u32, enc_u64, is_prefix, le_bytes};

verus! {

/// The value of little-endian bytes.
pub open spec fn le_value(s: Seq<u8>) -> nat
    decreases s.len(),
{
    if s.len() == 0 {
        0
    } else {
        s[0] as nat + 256 * le_value(s.drop_first())
    }
}

/// The value of big-endian bytes.
pub open spec fn be_value(s: Seq<u8>) -> nat
    decreases s.len(),
{
    if s.len() == 0 {
        0
    } else {
        be_value(s.drop_last()) * 256 + s.last() as nat
    }
}

pub open spec fn pow256(n: nat) -> nat
    decreases n,
{
    if n == 0 {
        1
    } else {
        256 * pow256((n - 1) as nat)
    }
}

pub proof fn lemma_le_value_bound(s: Seq<u8>)
    ensures
        le_value(s) < pow256(s.len()),
    decreases s.len(),
{
    if s.len() > 0 {
        lemma_le_value_bound(s.drop_first());
        let a = s[0] as nat;
        let b = le_value(s.drop_first());
        let p = pow256(s.drop_first().len());
        assert(a + 256 * b < 256 * p) by (nonlinear_arith)
            requires
                a < 256,
                b < p,
        ;
    }
}

pub proof fn lemma_be_value_bound(s: Seq<u8>)
    ensures
        be_value(s) < pow256(s.len()),
    decreases s.len(),
{
    if s.len() > 0 {
        lemma_be_value_bound(s.drop_last());
        let a = s.last() as nat;
        let b = be_value(s.drop_last());
        let p = pow256(s.drop_last().len());
        assert(b * 256 + a < 256 * p) by (nonlinear_arith)
            requires
                a < 256,
                b < p,
        ;
    }
}

/// Writing a value's low bytes and reading them back gives the value, where
/// it fits.
pub proof fn lemma_le_round_trip(v: nat, n: nat)
    requires
        v < pow256(n),
    ensures
        le_bytes(v, n).len() == n,
        le_value(le_bytes(v, n)) == v,
    decreases n,
{
    if n > 0 {
        let q = v / 256;
        let r = v % 256;
        assert(v == r + 256 * q && r < 256) by (nonlinear_arith)
            requires
                q == v / 256,
                r == v % 256,
        ;
        assert(q < pow256((n - 1) as nat)) by (nonlinear_arith)
            requires
                v == r + 256 * q,
                v < 256 * pow256((n - 1) as nat),
                r >= 0,
        ;
        lemma_le_round_trip(q, (n - 1) as nat);
        let s = le_bytes(v, n);
        assert(s.drop_first() =~= le_bytes(q, (n - 1) as nat));
    }
}

/// Reading bytes as a value and writing the value back gives the bytes.
pub proof fn lemma_le_bytes_of_value(s: Seq<u8>)
    ensures
        le_bytes(le_value(s), s.len()) == s,
    decreases s.len(),
{
    if s.len() > 0 {
        let rest = s.drop_first();
        lemma_le_bytes_of_value(rest);
        let v = le_value(s);
        let a = s[0] as nat;
        let b = le_value(rest);
        assert(v % 256 == a && v / 256 == b) by (nonlinear_arith)
            requires
                v == a + 256 * b,
                a < 256,
        ;
        assert(le_bytes(v, s.len()) =~= s);
    }
}

/// Reads `n` little-endian bytes from `b` at `pos`.
pub fn read_le(b: &[u8], pos: usize, n: usize) -> (r: u64)
    requires
        n <= 8,
        pos + n <= b@.len(),
    ensures
        r == le_value(b@.subrange(pos as int, pos + n)),
{
    let mut acc: u64 = 0;
    let len = b.len();
    let mut i: usize = n;
    while i > 0
        invariant
            0 <= i <= n,
            len == b@.len(),
            n <= 8,
            pos + n <= b@.len(),
            acc == le_value(b@.subrange(pos + i, pos + n)),
        decreases i,
    {
        let ghost tail = b@.subrange(pos + i, pos + n);
        let ghost s = b@.subrange(pos + i - 1, pos + n);
        assert(s.drop_first() =~= tail);
        proof {
            lemma_le_value_bound(tail);
            assert(pow256(tail.len()) <= pow256(7)) by {
                lemma_pow256_mono(tail.len(), 7);
            }
            assert(pow256(7) == 0x100_0000_0000_0000) by {
                reveal_with_fuel(pow256, 8);
            }
        }
        acc = b[pos + i - 1] as u64 + 256 * acc;
        i = i - 1;
    }
    acc
}

/// The last `k` bytes of a big-endian value are those bytes again.
pub proof fn lemma_be_bytes_of_value(s: Seq<u8>, k: nat)
    requires
        k <= s.len(),
    ensures
        be_bytes(be_value(s), k) == s.subrange(s.len() - k, s.len() as int),
    decreases k,
{
    if k > 0 {
        let rest = s.drop_last();
        lemma_be_bytes_of_value(rest, (k - 1) as nat);
        let v = be_value(s);
        let a = s.last() as nat;
        let b = be_value(rest);
        assert(v % 256 == a && v / 256 == b) by (nonlinear_arith)
            requires
                v == b * 256 + a,
                a < 256,
        ;
        assert(be_bytes(v, k) =~= s.subrange(s.len() - k, s.len() as int));
    }
}

/// The big-endian value of two parts one after the other.
pub proof fn lemma_be_value_concat(a: Seq<u8>, b: Seq<u8>)
    ensures
        be_value(a + b) == be_value(a) * pow256(b.len()) + be_value(b),
    decreases b.len(),
{
    if b.len() == 0 {
        assert(a + b =~= a);
        assert(pow256(0) == 1);
        assert(be_value(b) == 0);
        assert(be_value(a) * 1 == be_value(a));
    } else {
        assert((a + b).drop_last() =~= a + b.drop_last());
        assert((a + b).last() == b.last());
        assert(pow256(b.len()) == 256 * pow256(b.drop_last().len()));
        lemma_be_value_concat(a, b.drop_last());
        let x = be_value(a);
        let p = pow256(b.drop_last().len());
        let y = be_value(b.drop_last());
        let l = b.last() as nat;
        assert((x * p + y) * 256 + l == x * (256 * p) + (y * 256 + l)) by (nonlinear_arith);
    }
}

/// Reads `n` big-endian bytes from `b` at `pos`.
pub fn read_be(b: &[u8], pos: usize, n: usize) -> (r: u128)
    requires
        n <= 16,
        pos + n <= b@.len(),
    ensures
        r == be_value(b@.subrange(pos as int, pos + n)),
{
    let mut acc: u128 = 0;
    let len = b.len();
    let mut i: usize = 0;
    while i < n
        invariant
            0 <= i <= n,
            n <= 16,
            len == b@.len(),
            pos + n <= b@.len(),
            acc == be_value(b@.subrange(pos as int, pos + i)),
        decreases n - i,
    {
        let ghost head = b@.subrange(pos as int, pos + i);
        let ghost s = b@.subrange(pos as int, pos + i + 1);
        assert(s.drop_last() =~= head);
        proof {
            lemma_be_value_bound(head);
            lemma_pow256_mono(head.len(), 15);
            assert(pow256(15) == 0x1_0000_0000_0000_0000_0000_0000_0000_00) by {
                reveal_with_fuel(pow256, 16);
            }
        }
        acc = acc * 256 + b[pos + i] as u128;
        i = i + 1;
    }
    acc
}

/// Reads a 16-bit integer at `pos`, and the position after it.
pub fn read_u16_at(b: &[u8], pos: usize) -> (r: Option<(u16, usize)>)
    ensures
        r is None <==> pos + 2 > b@.len(),
        r matches Some((v, p)) ==> p == pos + 2 && b@.subrange(pos as int, p as int) == enc_u16(v),
{
    if b.len() < 2 || pos > b.len() - 2 {
        return None;
    }
    let v = read_le(b, pos, 2);
    proof {
        let sub = b@.subrange(pos as int, pos + 2);
        lemma_le_value_bound(sub);
        lemma_le_bytes_of_value(sub);
        assert(pow256(2) == 0x1_0000) by {
            reveal_with_fuel(pow256, 3);
        }
    }
    Some((v as u16, pos + 2))
}

/// Reads a 32-bit integer at `pos`, and the position after it.
pub fn read_u32_at(b: &[u8], pos: usize) -> (r: Option<(u32, usize)>)
    ensures
        r is None <==> pos + 4 > b@.len(),
        r matches Some((v, p)) ==> p == pos + 4 && b@.subrange(pos as int, p as int) == enc_u32(v),
{
    if b.len() < 4 || pos > b.len() - 4 {
        return None;
    }
    let v = read_le(b, pos, 4);
    proof {
        let sub = b@.subrange(pos as int, pos + 4);
        lemma_le_value_bound(sub);
        lemma_le_bytes_of_value(sub);
        assert(pow256(4) == 0x1_0000_0000) by {
            reveal_with_fuel(pow256, 5);
        }
    }
    Some((v as u32, pos + 4))
}

/// Reads a 64-bit integer at `pos`, and the position after it.
pub fn read_u64_at(b: &[u8], pos: usize) -> (r: Option<(u64, usize)>)
    ensures
        r is None <==> pos + 8 > b@.len(),
        r matches Some((v, p)) ==> p == pos + 8 && b@.subrange(pos as int, p as int) == enc_u64(v),
{
    if b.len() < 8 || pos > b.len() - 8 {
        return None;
    }
    let v = read_le(b, pos, 8);
    proof {
        let sub = b@.subrange(pos as int, pos + 8);
        lemma_le_bytes_of_value(sub);
    }
    Some((v, pos + 8))
}

/// Reads 32 bytes at `pos`, and the position after them.
pub fn read_array32_at(b: &[u8], pos: usize) -> (r: Option<([u8; 32], usize)>)
    ensures
        r is None <==> pos + 32 > b@.len(),
        r matches Some((v, p)) ==> p == pos + 32 && b@.subrange(pos as int, p as int) == v@,
{
    if b.len() < 32 || pos > b.len() - 32 {
        return None;
    }
    let mut v = [0u8; 32];
    let len = b.len();
    let mut i: usize = 0;
    while i < 32
        invariant
            0 <= i <= 32,
            len == b@.len(),
            pos + 32 <= b@.len(),
            v@.len() == 32,
            forall|j: int| 0 <= j < i ==> v@[j] == b@[pos + j],
        decreases 32 - i,
    {
        v[i] = b[pos + i];
        i = i + 1;
    }
    assert(v@ =~= b@.subrange(pos as int, pos + 32));
    Some((v, pos + 32))
}

/// Reads 64 bytes at `pos`, and the position after them.
pub fn read_array64_at(b: &[u8], pos: usize) -> (r: Option<([u8; 64], usize)>)
    ensures
        r is None <==> pos + 64 > b@.len(),
        r matches Some((v, p)) ==> p == pos + 64 && b@.subrange(pos as int, p as int) == v@,
{
    if b.len() < 64 || pos > b.len() - 64 {
        return None;
    }
    let mut v = [0u8; 64];
    let len = b.len();
    let mut i: usize = 0;
    while i < 64
        invariant
            0 <= i <= 64,
            len == b@.len(),
            pos + 64 <= b@.len(),
            v@.len() == 64,
            forall|j: int| 0 <= j < i ==> v@[j] == b@[pos + j],
        decreases 64 - i,
    {
        v[i] = b[pos + i];
        i = i + 1;
    }
    assert(v@ =~= b@.subrange(pos as int, pos + 64));
    Some((v, pos + 64))
}

/// Reads a byte vector (its length, then its bytes) at `pos`, and the
/// position after it.
pub fn read_bytes_at(b: &[u8], pos: usize) -> (r: Option<(Vec<u8>, usize)>)
    ensures
        r matches Some((v, p)) ==> pos < p <= b@.len() && b@.subrange(pos as int, p as int)
            == enc_bytes(v@),
        forall|t: Seq<u8>|
            pos <= b@.len() && #[trigger] is_prefix(b@.skip(pos as int), enc_bytes(t)) ==> (
            r matches Some((v, p)) && v@ == t && p == pos + enc_bytes(t).len()),
{
    let blen = b.len();
    proof {
        lemma_pow256_values();
    }
    let (n, start) = match read_u64_at(b, pos) {
        Some(x) => x,
        None => {
            assert forall|t: Seq<u8>|
                pos <= b@.len() && #[trigger] is_prefix(b@.skip(pos as int), enc_bytes(t)) implies false by {
                lemma_bytes_prefix(b@.skip(pos as int), t);
            }
            return None;
        },
    };
    assert forall|t: Seq<u8>|
        pos <= b@.len() && #[trigger] is_prefix(b@.skip(pos as int), enc_bytes(t)) implies n == t.len()
            && t == b@.subrange(start as int, start + t.len()) by {
        lemma_bytes_prefix(b@.skip(pos as int), t);
        assert(b@.skip(pos as int).take(8) =~= b@.subrange(pos as int, start as int));
        lemma_le_bytes_injective(n as nat, t.len(), 8);
        assert(b@.skip(pos as int).subrange(8, 8 + t.len() as int) =~= b@.subrange(
            start as int,
            start + t.len(),
        ));
    }
    if n > (b.len() - start) as u64 {
        return None;
    }
    let n = n as usize;
    let mut v: Vec<u8> = Vec::new();
    let len = b.len();
    let mut i: usize = 0;
    while i < n
        invariant
            0 <= i <= n,
            len == b@.len(),
            start + n <= b@.len(),
            v@ == b@.subrange(start as int, start + i),
        decreases n - i,
    {
        v.push(b[start + i]);
        assert(v@ =~= b@.subrange(start as int, start + i + 1));
        i = i + 1;
    }
    assert(b@.subrange(pos as int, start + n as int) =~= b@.subrange(pos as int, start as int)
        + b@.subrange(start as int, start + n as int));
    Some((v, start + n))
}

/// Equal low bytes of two values that fit give equal values.
pub proof fn lemma_le_bytes_injective(a: nat, b: nat, n: nat)
    requires
        a < pow256(n),
        b < pow256(n),
        le_bytes(a, n) == le_bytes(b, n),
    ensures
        a == b,
{
    lemma_le_round_trip(a, n);
    lemma_le_round_trip(b, n);
}

pub proof fn lemma_pow256_values()
    ensures
        pow256(2) == 0x1_0000,
        pow256(4) == 0x1_0000_0000,
        pow256(8) == 0x1_0000_0000_0000_0000,
        pow256(16) == 0x1_0000_0000_0000_0000_0000_0000_0000_0000,
{
    reveal_with_fuel(pow256, 17);
}

/// Reading back the `n` low bytes of `v`, most significant first, gives `v`
/// modulo `256^n`.
pub proof fn lemma_be_value_of_bytes(v: nat, n: nat)
    ensures
        be_bytes(v, n).len() == n,
        be_value(be_bytes(v, n)) == v % pow256(n),
    decreases n,
{
    if n > 0 {
        let q = v / 256;
        let r = v % 256;
        let p = pow256((n - 1) as nat);
        lemma_be_value_of_bytes(q, (n - 1) as nat);
        let s = be_bytes(v, n);
        assert(s.drop_last() =~= be_bytes(q, (n - 1) as nat));
        assert(p > 0) by {
            lemma_pow256_positive((n - 1) as nat);
        }
        assert((q % p) * 256 + r == v % (256 * p)) by (nonlinear_arith)
            requires
                q == v / 256,
                r == v % 256,
                p > 0,
        {
            vstd::arithmetic::div_mod::lemma_breakdown(v as int, 256, p as int);
        }
    } else {
        assert(v % 1 == 0);
    }
}

pub proof fn lemma_pow256_positive(n: nat)
    ensures
        pow256(n) > 0,
    decreases n,
{
    if n > 0 {
        lemma_pow256_positive((n - 1) as nat);
    }
}

/// What the start of a byte vector's wire form holds.
pub proof fn lemma_bytes_prefix(s: Seq<u8>, t: Seq<u8>)
    requires
        is_prefix(s, enc_bytes(t)),
        s.len() <= usize::MAX,
    ensures
        s.len() >= 8 + t.len(),
        t.len() < pow256(8),
        s.take(8) == le_bytes(t.len(), 8),
        s.subrange(8, 8 + t.len() as int) == t,
{
    lemma_pow256_values();
    assert(t.len() < pow256(8)) by {
        assert(s.len() <= usize::MAX);
    }
    lemma_le_round_trip(t.len(), 8);
    assert(enc_bytes(t).take(8) =~= le_bytes(t.len(), 8));
    assert(s.take(8) =~= enc_bytes(t).take(8));
    assert(s.subrange(8, 8 + t.len() as int) =~= enc_bytes(t).subrange(8, 8 + t.len() as int));
    assert(enc_bytes(t).subrange(8, 8 + t.len() as int) =~= t);
}

pub proof fn lemma_pow256_mono(a: nat, b: nat)
    requires
        a <= b,
    ensures
        pow256(a) <= pow256(b),
    decreases b,
{
    if a < b {
        lemma_pow256_mono(a, (b - 1) as nat);
    }
}

} // verus!
