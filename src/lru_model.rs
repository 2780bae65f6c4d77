//! The least-recently-used caches of the ping cache: `lru::LruCache` behind
//! wrappers whose contracts describe each cache as its entries, ordered from
//! the least to the most recently used.

use vstd::prelude::*;
use crate::crypto::{Digest, Pubkey};

verus! {

/// A socket address: an IPv6 address as a 128-bit integer (IPv4 addresses
/// stand as IPv4-mapped IPv6 addresses, `::ffff:a.b.c.d`) and a port.
pub type SocketAddress = (u128, u16);

/// A peer: its identity key and the address it is reached at.
pub type Node = (Pubkey, SocketAddress);

#[verifier::external_type_specification]
#[verifier::external_body]
#[verifier::reject_recursive_types(K)]
#[verifier::reject_recursive_types(V)]
#[verifier::reject_recursive_types(S)]
pub struct ExLruCache<K, V, S>(lru::LruCache<K, V, S>);

/// A cache of times (in milliseconds) per node.
pub type NodeTimes = lru::LruCache<Node, u64, std::collections::hash_map::RandomState>;

/// A cache of outstanding challenges: the digest a reply must carry, and the
/// node the challenge went to.
pub type Challenges = lru::LruCache<Digest, Node, std::collections::hash_map::RandomState>;

/// The entries of a cache of times per node, least recently used first.
pub uninterp spec fn node_times_entries(c: NodeTimes) -> Seq<(Node, u64)>;

/// The capacity that a cache of times per node was made with.
pub uninterp spec fn node_times_cap(c: NodeTimes) -> nat;

/// The entries of a cache of outstanding challenges, least recently used first.
pub uninterp spec fn challenge_entries(c: Challenges) -> Seq<(Digest, Node)>;

/// The capacity that a cache of outstanding challenges was made with.
pub uninterp spec fn challenge_cap(c: Challenges) -> nat;

/// Whether some entry has key `k`.
pub open spec fn has_key<K, V>(s: Seq<(K, V)>, k: K) -> bool {
    exists|i: int| 0 <= i < s.len() && s[i].0 == k
}

/// No two entries share a key.
pub open spec fn keys_unique<K, V>(s: Seq<(K, V)>) -> bool {
    forall|i: int, j: int| 0 <= i < s.len() && 0 <= j < s.len() && s[i].0 == s[j].0 ==> i == j
}

/// The value stored under `k`, if any.
pub open spec fn lookup<K, V>(s: Seq<(K, V)>, k: K) -> Option<V> {
    if has_key(s, k) {
        Some(s[choose|i: int| 0 <= i < s.len() && s[i].0 == k].1)
    } else {
        None
    }
}

/// The entries without the one under `k`, in the same order.
pub open spec fn without_key<K, V>(s: Seq<(K, V)>, k: K) -> Seq<(K, V)> {
    s.filter(|e: (K, V)| e.0 != k)
}

/// The entries after `put(k, v)` on a cache of capacity `cap`: an entry under
/// `k` is replaced, else the least recently used entry leaves a full cache;
/// the new entry is the most recently used.
pub open spec fn after_put<K, V>(s: Seq<(K, V)>, k: K, v: V, cap: nat) -> Seq<(K, V)> {
    if has_key(s, k) {
        without_key(s, k).push((k, v))
    } else if s.len() >= cap {
        s.drop_first().push((k, v))
    } else {
        s.push((k, v))
    }
}

/// The entries after `get(k)`: an entry under `k` becomes the most recently used.
pub open spec fn after_get<K, V>(s: Seq<(K, V)>, k: K) -> Seq<(K, V)> {
    if has_key(s, k) {
        without_key(s, k).push((k, lookup(s, k).unwrap()))
    } else {
        s
    }
}

/// A well-formed cache: unique keys, and no more entries than its capacity.
pub open spec fn cache_wf<K, V>(s: Seq<(K, V)>, cap: nat) -> bool {
    keys_unique(s) && s.len() <= cap && cap > 0
}

/// Relies on lru's `LruCache::with_hasher`: an empty cache holding up to `cap` entries.
#[verifier::external_body]
pub(crate) fn node_times_new(cap: usize) -> (r: NodeTimes)
    requires
        cap > 0,
    ensures
        node_times_entries(r) == Seq::<(Node, u64)>::empty(),
        node_times_cap(r) == cap,
{
    lru::LruCache::with_hasher(
        std::num::NonZeroUsize::new(cap).unwrap(),
        std::collections::hash_map::RandomState::new(),
    )
}

/// Relies on lru's `LruCache::peek`: the value under the key, leaving the order as it is.
#[verifier::external_body]
pub(crate) fn node_times_peek(c: &NodeTimes, k: &Node) -> (r: Option<u64>)
    ensures
        r == lookup(node_times_entries(*c), *k),
{
    c.peek(k).copied()
}

/// Relies on lru's `LruCache::get`: the value under the key, which becomes
/// the most recently used.
#[verifier::external_body]
pub(crate) fn node_times_get(c: &mut NodeTimes, k: &Node) -> (r: Option<u64>)
    ensures
        r == lookup(node_times_entries(*old(c)), *k),
        node_times_entries(*final(c)) == after_get(node_times_entries(*old(c)), *k),
        node_times_cap(*final(c)) == node_times_cap(*old(c)),
        cache_wf(node_times_entries(*final(c)), node_times_cap(*final(c))),
{
    c.get(k).copied()
}

/// Relies on lru's `LruCache::put`: the key's entry is replaced or added as
/// the most recently used, evicting the least recently used one from a full cache.
#[verifier::external_body]
pub(crate) fn node_times_put(c: &mut NodeTimes, k: Node, v: u64)
    ensures
        node_times_entries(*final(c)) == after_put(
            node_times_entries(*old(c)),
            k,
            v,
            node_times_cap(*old(c)),
        ),
        node_times_cap(*final(c)) == node_times_cap(*old(c)),
        cache_wf(node_times_entries(*final(c)), node_times_cap(*final(c))),
{
    c.put(k, v);
}

/// Relies on lru's `LruCache::pop`: removes the key's entry and returns its value.
#[verifier::external_body]
pub(crate) fn node_times_pop(c: &mut NodeTimes, k: &Node) -> (r: Option<u64>)
    ensures
        r == lookup(node_times_entries(*old(c)), *k),
        node_times_entries(*final(c)) == without_key(node_times_entries(*old(c)), *k),
        node_times_cap(*final(c)) == node_times_cap(*old(c)),
        cache_wf(node_times_entries(*final(c)), node_times_cap(*final(c))),
{
    c.pop(k)
}

/// Relies on lru's `LruCache::with_hasher`: an empty cache holding up to `cap` entries.
#[verifier::external_body]
pub(crate) fn challenges_new(cap: usize) -> (r: Challenges)
    requires
        cap > 0,
    ensures
        challenge_entries(r) == Seq::<(Digest, Node)>::empty(),
        challenge_cap(r) == cap,
{
    lru::LruCache::with_hasher(
        std::num::NonZeroUsize::new(cap).unwrap(),
        std::collections::hash_map::RandomState::new(),
    )
}

/// Relies on lru's `LruCache::peek`: the value under the key, leaving the order as it is.
#[verifier::external_body]
pub(crate) fn challenges_peek(c: &Challenges, k: &Digest) -> (r: Option<Node>)
    ensures
        r == lookup(challenge_entries(*c), *k),
{
    c.peek(k).copied()
}

/// Relies on lru's `LruCache::put`: the key's entry is replaced or added as
/// the most recently used, evicting the least recently used one from a full cache.
#[verifier::external_body]
pub(crate) fn challenges_put(c: &mut Challenges, k: Digest, v: Node)
    ensures
        challenge_entries(*final(c)) == after_put(
            challenge_entries(*old(c)),
            k,
            v,
            challenge_cap(*old(c)),
        ),
        challenge_cap(*final(c)) == challenge_cap(*old(c)),
        cache_wf(challenge_entries(*final(c)), challenge_cap(*final(c))),
{
    c.put(k, v);
}

/// Relies on lru's `LruCache::pop`: removes the key's entry and returns its value.
#[verifier::external_body]
pub(crate) fn challenges_pop(c: &mut Challenges, k: &Digest) -> (r: Option<Node>)
    ensures
        r == lookup(challenge_entries(*old(c)), *k),
        challenge_entries(*final(c)) == without_key(challenge_entries(*old(c)), *k),
        challenge_cap(*final(c)) == challenge_cap(*old(c)),
        cache_wf(challenge_entries(*final(c)), challenge_cap(*final(c))),
{
    c.pop(k)
}

/// After `put(k, v)`, looking `k` up gives `v`.
pub proof fn lemma_put_then_lookup<K, V>(s: Seq<(K, V)>, k: K, v: V, cap: nat)
    requires
        keys_unique(after_put(s, k, v, cap)),
    ensures
        lookup(after_put(s, k, v, cap), k) == Some(v),
{
    let r = after_put(s, k, v, cap);
    let n = r.len() - 1;
    assert(r[n].0 == k);
    assert(r[r.len() - 1].0 == k);
    assert(has_key(r, k));
    let i = choose|i: int| 0 <= i < r.len() && r[i].0 == k;
    assert(i == n);
}

/// After removing `k`, looking `k` up finds nothing.
pub proof fn lemma_removed_lookup<K, V>(s: Seq<(K, V)>, k: K)
    ensures
        lookup(without_key(s, k), k) is None,
{
    let r = without_key(s, k);
    let pred = |e: (K, V)| e.0 != k;
    broadcast use vstd::seq_lib::group_filter_ensures;
    if has_key(r, k) {
        let i = choose|i: int| 0 <= i < r.len() && r[i].0 == k;
        assert(pred(r[i]));
    }
}

/// Putting a new key into a full cache evicts the least recently used entry
/// and keeps every other one.
pub proof fn lemma_full_put_evicts_least_recent<K, V>(s: Seq<(K, V)>, k: K, v: V, cap: nat)
    requires
        cache_wf(s, cap),
        s.len() == cap,
        !has_key(s, k),
    ensures
        lookup(after_put(s, k, v, cap), s[0].0) is None,
        forall|j: int| 1 <= j < s.len() ==> lookup(after_put(s, k, v, cap), #[trigger] s[j].0) == Some(s[j].1),
        lookup(after_put(s, k, v, cap), k) == Some(v),
{
    let r = after_put(s, k, v, cap);
    assert(r == s.drop_first().push((k, v)));
    assert forall|i: int| 0 <= i < r.len() implies r[i].0 != s[0].0 by {
        if i < r.len() - 1 {
            assert(r[i] == s[i + 1]);
        }
    }
    assert forall|j: int| 1 <= j < s.len() implies lookup(r, #[trigger] s[j].0) == Some(s[j].1) by {
        assert(r[j - 1] == s[j]);
        assert(has_key(r, s[j].0));
        let i = choose|i: int| 0 <= i < r.len() && r[i].0 == s[j].0;
        if i == r.len() - 1 {
            assert(has_key(s, k));
        } else {
            assert(r[i] == s[i + 1]);
        }
    }
    assert(r[r.len() - 1].0 == k);
    assert(has_key(r, k));
    let i = choose|i: int| 0 <= i < r.len() && r[i].0 == k;
    if i < r.len() - 1 {
        assert(r[i] == s[i + 1]);
        assert(has_key(s, k));
    }
}

/// The entries after putting each of `items` in turn.
pub open spec fn put_all<K, V>(s: Seq<(K, V)>, items: Seq<(K, V)>, cap: nat) -> Seq<(K, V)>
    decreases items.len(),
{
    if items.len() == 0 {
        s
    } else {
        after_put(put_all(s, items.drop_last(), cap), items.last().0, items.last().1, cap)
    }
}

/// Putting up to `cap` entries with distinct keys into an empty cache keeps
/// them all, in the order put.
pub proof fn lemma_put_all_fills<K, V>(items: Seq<(K, V)>, cap: nat)
    requires
        keys_unique(items),
        items.len() <= cap,
    ensures
        put_all(Seq::<(K, V)>::empty(), items, cap) == items,
    decreases items.len(),
{
    if items.len() > 0 {
        let init = items.drop_last();
        assert(keys_unique(init));
        lemma_put_all_fills(init, cap);
        if has_key(init, items.last().0) {
            let i = choose|i: int| 0 <= i < init.len() && init[i].0 == items.last().0;
            assert(items[i].0 == items[items.len() - 1].0);
        }
        assert(init.push(items.last()) =~= items);
    }
}

/// Putting one more entry with a distinct key than the capacity into an
/// empty cache evicts the first one put, the least recently used, and keeps
/// every other.
pub proof fn lemma_overfull_evicts_first<K, V>(items: Seq<(K, V)>, cap: nat)
    requires
        keys_unique(items),
        items.len() == cap + 1,
        cap > 0,
    ensures
        lookup(put_all(Seq::<(K, V)>::empty(), items, cap), items[0].0) is None,
        forall|j: int|
            1 <= j < items.len() ==> lookup(put_all(Seq::<(K, V)>::empty(), items, cap), #[trigger] items[j].0)
                == Some(items[j].1),
{
    let init = items.drop_last();
    let last = items.last();
    assert(keys_unique(init));
    lemma_put_all_fills(init, cap);
    if has_key(init, last.0) {
        let i = choose|i: int| 0 <= i < init.len() && init[i].0 == last.0;
        assert(items[i].0 == items[items.len() - 1].0);
    }
    lemma_full_put_evicts_least_recent(init, last.0, last.1, cap);
    assert forall|j: int| 1 <= j < items.len() implies lookup(
        put_all(Seq::<(K, V)>::empty(), items, cap),
        #[trigger] items[j].0,
    ) == Some(items[j].1) by {
        if j < init.len() {
            assert(init[j] == items[j]);
        }
    }
}

} // verus!
