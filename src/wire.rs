//! The binary wire layout: integers little-endian at fixed width, sequences
//! as a 64-bit length followed by their items, enum variants as a 32-bit index.

use vstd::prelude::*;

verus! {

/// The `n` low bytes of `v`, least significant first.
pub open spec fn le_bytes(v: nat, n: nat) -> Seq<u8>
    decreases n,
{
    if n == 0 {
        Seq::empty()
    } else {
        seq![(v % 256) as u8] + le_bytes(v / 256, (n - 1) as nat)
    }
}

pub open spec fn enc_u8(v: u8) -> Seq<u8> {
    seq![v]
}

pub open spec fn enc_u16(v: u16) -> Seq<u8> {
    le_bytes(v as nat, 2)
}

pub open spec fn enc_u32(v: u32) -> Seq<u8> {
    le_bytes(v as nat, 4)
}

pub open spec fn enc_u64(v: u64) -> Seq<u8> {
    le_bytes(v as nat, 8)
}

/// A sequence length, as 64 bits.
pub open spec fn enc_len(n: nat) -> Seq<u8> {
    le_bytes(n, 8)
}

/// A byte vector: its length, then its bytes.
pub open spec fn enc_bytes(s: Seq<u8>) -> Seq<u8> {
    enc_len(s.len()) + s
}

/// An optional value: a tag byte, 0 for none and 1 for some, then the value.
pub open spec fn enc_option_u64(v: Option<u64>) -> Seq<u8> {
    match v {
        Some(x) => seq![1u8] + enc_u64(x),
        None => seq![0u8],
    }
}

pub open spec fn enc_option_u32(v: Option<u32>) -> Seq<u8> {
    match v {
        Some(x) => seq![1u8] + enc_u32(x),
        None => seq![0u8],
    }
}

/// The items of `s`, each encoded by `f`, one after the other.
pub open spec fn concat_map<T>(s: Seq<T>, f: spec_fn(T) -> Seq<u8>) -> Seq<u8>
    decreases s.len(),
{
    if s.len() == 0 {
        Seq::empty()
    } else {
        concat_map(s.drop_last(), f) + f(s.last())
    }
}

/// A vector: its length, then its items, each encoded by `f`.
pub open spec fn enc_vec<T>(s: Seq<T>, f: spec_fn(T) -> Seq<u8>) -> Seq<u8> {
    enc_len(s.len()) + concat_map(s, f)
}

/// Encoding one more item extends the encoding of the items before it.
pub proof fn lemma_concat_map_step<T>(s: Seq<T>, f: spec_fn(T) -> Seq<u8>, i: int)
    requires
        0 <= i < s.len(),
    ensures
        concat_map(s.take(i + 1), f) == concat_map(s.take(i), f) + f(s[i]),
{
    assert(s.take(i + 1).drop_last() =~= s.take(i));
}

pub proof fn lemma_le_bytes_len(v: nat, n: nat)
    ensures
        le_bytes(v, n).len() == n,
    decreases n,
{
    if n > 0 {
        lemma_le_bytes_len(v / 256, (n - 1) as nat);
    }
}

/// Encoding two runs of items one after the other.
pub proof fn lemma_concat_map_append<T>(a: Seq<T>, b: Seq<T>, f: spec_fn(T) -> Seq<u8>)
    ensures
        concat_map(a + b, f) == concat_map(a, f) + concat_map(b, f),
    decreases b.len(),
{
    if b.len() == 0 {
        assert(a + b =~= a);
        assert(concat_map(a, f) + concat_map(b, f) =~= concat_map(a, f));
    } else {
        assert((a + b).drop_last() =~= a + b.drop_last());
        lemma_concat_map_append(a, b.drop_last(), f);
        assert(concat_map(a + b, f) =~= concat_map(a, f) + concat_map(b, f));
    }
}

/// The encoding of the items from `i` on starts with the encoding of item `i`.
pub proof fn lemma_concat_map_at<T>(s: Seq<T>, f: spec_fn(T) -> Seq<u8>, i: int)
    requires
        0 <= i < s.len(),
    ensures
        concat_map(s, f) == concat_map(s.take(i), f) + f(s[i]) + concat_map(s.skip(i + 1), f),
{
    assert(s =~= s.take(i) + (seq![s[i]] + s.skip(i + 1)));
    lemma_concat_map_append(s.take(i), seq![s[i]] + s.skip(i + 1), f);
    lemma_concat_map_append(seq![s[i]], s.skip(i + 1), f);
    let one = seq![s[i]];
    assert(one.drop_last() =~= Seq::<T>::empty());
    assert(one.last() == s[i]);
    assert(concat_map(one.drop_last(), f) == Seq::<u8>::empty());
    assert(concat_map(one, f) == concat_map(one.drop_last(), f) + f(s[i]));
    assert(concat_map(one, f) =~= f(s[i]));
    assert(concat_map(s, f) =~= concat_map(s.take(i), f) + f(s[i]) + concat_map(s.skip(i + 1), f));
}

/// `e` is what `s` starts with.
pub open spec fn is_prefix(s: Seq<u8>, e: Seq<u8>) -> bool {
    e.len() <= s.len() && s.take(e.len() as int) == e
}

/// Appends the `n` low bytes of `v`, least significant first.
pub fn put_le(out: &mut Vec<u8>, v: u64, n: usize)
    requires
        n <= 8,
    ensures
        final(out)@ == old(out)@ + le_bytes(v as nat, n as nat),
{
    let mut i: usize = 0;
    let mut rest: u64 = v;
    while i < n
        invariant
            0 <= i <= n,
            n <= 8,
            out@ + le_bytes(rest as nat, (n - i) as nat) == old(out)@ + le_bytes(v as nat, n as nat),
        decreases n - i,
    {
        let ghost before = out@;
        out.push((rest % 256) as u8);
        assert(out@ + le_bytes((rest / 256) as nat, (n - i - 1) as nat) =~= before + le_bytes(
            rest as nat,
            (n - i) as nat,
        ));
        rest = rest / 256;
        i = i + 1;
    }
    assert(out@ =~= out@ + le_bytes(rest as nat, 0));
}

pub fn put_u8(out: &mut Vec<u8>, v: u8)
    ensures
        final(out)@ == old(out)@ + enc_u8(v),
{
    out.push(v);
    assert(out@ =~= old(out)@ + enc_u8(v));
}

pub fn put_u16(out: &mut Vec<u8>, v: u16)
    ensures
        final(out)@ == old(out)@ + enc_u16(v),
{
    put_le(out, v as u64, 2);
}

pub fn put_u32(out: &mut Vec<u8>, v: u32)
    ensures
        final(out)@ == old(out)@ + enc_u32(v),
{
    put_le(out, v as u64, 4);
}

pub fn put_u64(out: &mut Vec<u8>, v: u64)
    ensures
        final(out)@ == old(out)@ + enc_u64(v),
{
    put_le(out, v, 8);
}

pub fn put_len(out: &mut Vec<u8>, n: usize)
    ensures
        final(out)@ == old(out)@ + enc_len(n as nat),
{
    put_le(out, n as u64, 8);
}

/// Appends the bytes of `s` as they are.
pub fn put_raw(out: &mut Vec<u8>, s: &[u8])
    ensures
        final(out)@ == old(out)@ + s@,
{
    let mut i: usize = 0;
    while i < s.len()
        invariant
            0 <= i <= s@.len(),
            out@ == old(out)@ + s@.take(i as int),
        decreases s@.len() - i,
    {
        out.push(s[i]);
        assert(s@.take(i + 1) =~= s@.take(i as int).push(s@[i as int]));
        i = i + 1;
    }
    assert(s@.take(s@.len() as int) =~= s@);
}

/// Appends a byte vector: its length, then its bytes.
pub fn put_bytes(out: &mut Vec<u8>, s: &Vec<u8>)
    ensures
        final(out)@ == old(out)@ + enc_bytes(s@),
{
    put_len(out, s.len());
    put_raw(out, s.as_slice());
    assert(out@ =~= old(out)@ + enc_bytes(s@));
}

pub fn put_option_u64(out: &mut Vec<u8>, v: Option<u64>)
    ensures
        final(out)@ == old(out)@ + enc_option_u64(v),
{
    match v {
        Some(x) => {
            put_u8(out, 1);
            put_u64(out, x);
        },
        None => put_u8(out, 0),
    }
    assert(out@ =~= old(out)@ + enc_option_u64(v));
}

pub fn put_option_u32(out: &mut Vec<u8>, v: Option<u32>)
    ensures
        final(out)@ == old(out)@ + enc_option_u32(v),
{
    match v {
        Some(x) => {
            put_u8(out, 1);
            put_u32(out, x);
        },
        None => put_u8(out, 0),
    }
    assert(out@ =~= old(out)@ + enc_option_u32(v));
}

} // verus!
