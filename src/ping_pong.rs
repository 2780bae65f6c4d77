//! The liveness challenge: pings carry a random token, pongs answer with the
//! digest of that token, and the ping cache decides whom to trust and whom to
//! challenge.

use vstd::prelude::*;
use crate::crypto::{
    Digest, Identity, Pubkey, Signature, bytes32_eq, ed25519_signature, hash_concat, new_token,
    serialize_token, sha256_of, signature_valid,
};
use crate::lru_model::{
    has_key, lemma_full_put_evicts_least_recent, Challenges, Node, NodeTimes, SocketAddress, after_get, after_put, cache_wf, challenge_cap,
    challenge_entries, challenges_new, challenges_peek, challenges_pop, challenges_put, lookup,
    node_times_cap, node_times_entries, node_times_get, node_times_new, node_times_peek,
    node_times_pop, node_times_put, without_key,
};

use crate::wire::put_raw;

verus! {

/// The domain-separation prefix hashed in front of a ping's token: the ASCII
/// text `SOLANA_PING_PONG`.
pub const PING_PONG_HASH_PREFIX: [u8; 16] = [
    83, 79, 76, 65, 78, 65, 95, 80, 73, 78, 71, 95, 80, 79, 78, 71,
];

/// The prefix as a sequence.
pub open spec fn ping_pong_prefix() -> Seq<u8> {
    seq![83u8, 79, 76, 65, 78, 65, 95, 80, 73, 78, 71, 95, 80, 79, 78, 71]
}

/// The digest that answers a ping with the given serialised token.
pub open spec fn pong_digest(token: Seq<u8>) -> Seq<u8> {
    sha256_of(ping_pong_prefix() + token)
}

/// A challenge: a random token signed by its sender.
#[derive(Debug)]
pub struct Ping {
    pub from: Pubkey,
    pub token: [u8; 32],
    pub signature: Signature,
}

/// The answer to a ping: the digest of the ping's token, signed by the responder.
#[derive(Debug)]
pub struct Pong {
    pub from: Pubkey,
    pub hash: Digest,
    pub signature: Signature,
}

/// Why a ping could not be answered.
#[derive(Debug)]
pub enum PingPongErros {
    FailedToCreatePong,
    FailedToSerealizePong,
    FailedToSendAPong,
}

fn prefix_bytes() -> (r: [u8; 16])
    ensures
        r@ == ping_pong_prefix(),
{
    let r = PING_PONG_HASH_PREFIX;
    assert(r@ =~= ping_pong_prefix());
    r
}

impl Ping {
    /// The wire form: key, token, signature.
    pub open spec fn enc(&self) -> Seq<u8> {
        self.from@ + self.token@ + self.signature@
    }

    /// Appends the wire form.
    pub fn encode(&self, out: &mut Vec<u8>)
        ensures
            final(out)@ == old(out)@ + self.enc(),
    {
        put_raw(out, self.from.as_slice());
        put_raw(out, self.token.as_slice());
        put_raw(out, self.signature.as_slice());
        assert(out@ =~= old(out)@ + self.enc());
    }

    /// A ping for `token`, signed with `keypair` over the token's wire form.
    pub fn new(token: [u8; 32], keypair: &Identity) -> (r: Result<Ping, Box<bincode::ErrorKind>>)
        ensures
            r is Ok,
            r->Ok_0.from == keypair.public_key(),
            r->Ok_0.token == token,
            r->Ok_0.signature@ == ed25519_signature(keypair.key_pair_bytes(), token@),
            signature_valid(r->Ok_0.signature@, keypair.public_key()@, token@),
    {
        let bytes = serialize_token(&token)?;
        let signature = keypair.sign_message(bytes.as_slice());
        Ok(Ping { from: keypair.pubkey(), token, signature })
    }

    /// A ping with a fresh random token, signed with `keypair`.
    pub fn rand(keypair: &Identity) -> (r: Result<Ping, Box<bincode::ErrorKind>>)
        ensures
            r is Ok,
            r->Ok_0.from == keypair.public_key(),
            r->Ok_0.signature@ == ed25519_signature(keypair.key_pair_bytes(), r->Ok_0.token@),
            signature_valid(r->Ok_0.signature@, keypair.public_key()@, r->Ok_0.token@),
    {
        let token = new_token();
        Self::new(token, keypair)
    }
}

impl Pong {
    /// The wire form: key, digest, signature.
    pub open spec fn enc(&self) -> Seq<u8> {
        self.from@ + self.hash@ + self.signature@
    }

    /// Appends the wire form.
    pub fn encode(&self, out: &mut Vec<u8>)
        ensures
            final(out)@ == old(out)@ + self.enc(),
    {
        put_raw(out, self.from.as_slice());
        put_raw(out, self.hash.as_slice());
        put_raw(out, self.signature.as_slice());
        assert(out@ =~= old(out)@ + self.enc());
    }

    /// The answer to `ping`: the digest of the prefix and the serialised
    /// token, signed with `keypair`. Fails only where the token cannot be
    /// serialised.
    pub fn new(ping: &Ping, keypair: &Identity) -> (r: Result<Pong, Box<bincode::ErrorKind>>)
        ensures
            r is Ok,
            r->Ok_0.from == keypair.public_key(),
            r->Ok_0.hash@ == pong_digest(ping.token@),
            r->Ok_0.signature@ == ed25519_signature(keypair.key_pair_bytes(), r->Ok_0.hash@),
            signature_valid(r->Ok_0.signature@, keypair.public_key()@, r->Ok_0.hash@),
    {
        let token = serialize_token(&ping.token)?;
        let prefix = prefix_bytes();
        let hash = hash_concat(prefix.as_slice(), token.as_slice());
        let signature = keypair.sign_message(hash.as_slice());
        Ok(Pong { from: keypair.pubkey(), hash, signature })
    }

    /// The responder's key.
    pub fn from(&self) -> (r: &Pubkey)
        ensures
            *r == self.from,
    {
        &self.from
    }
}

/// The time from `then` to `now`, or zero where `then` is later.
pub open spec fn elapsed(now: u64, then: u64) -> u64 {
    if now >= then {
        (now - then) as u64
    } else {
        0
    }
}

fn saturating_elapsed(now: u64, then: u64) -> (r: u64)
    ensures
        r == elapsed(now, then),
{
    if now >= then {
        now - then
    } else {
        0
    }
}

fn nodes_eq(a: &Node, b: &Node) -> (r: bool)
    ensures
        r == (*a == *b),
{
    let keys = bytes32_eq(&a.0, &b.0);
    proof {
        if keys {
            assert(a.0 =~= b.0);
        }
    }
    keys && (a.1).0 == (b.1).0 && (a.1).1 == (b.1).1
}

/// Whom to trust and whom to challenge. Times are in milliseconds.
///
/// `pings` holds when a challenge last went to each node, `pongs` when each
/// node last answered one, and `pending_cache` the digest each outstanding
/// challenge's answer must carry, with the node it went to.
pub struct PingCache {
    ttl: u64,
    rate_limit_delay: u64,
    pings: NodeTimes,
    pongs: NodeTimes,
    pending_cache: Challenges,
}

impl PingCache {
    /// How long an answer keeps a node trusted.
    pub closed spec fn ttl(&self) -> u64 {
        self.ttl
    }

    /// The least time between two challenges to one node.
    pub closed spec fn rate_limit_delay(&self) -> u64 {
        self.rate_limit_delay
    }

    /// When a challenge last went to each node, least recently used first.
    pub closed spec fn pings(&self) -> Seq<(Node, u64)> {
        node_times_entries(self.pings)
    }

    /// When each node last answered, least recently used first.
    pub closed spec fn pongs(&self) -> Seq<(Node, u64)> {
        node_times_entries(self.pongs)
    }

    /// The outstanding challenges, least recently used first.
    pub closed spec fn pending(&self) -> Seq<(Digest, Node)> {
        challenge_entries(self.pending_cache)
    }

    /// The capacity of each of the three caches.
    pub closed spec fn capacity(&self) -> nat {
        node_times_cap(self.pings)
    }

    /// The three caches share one capacity and each is well formed.
    pub closed spec fn wf(&self) -> bool {
        &&& node_times_cap(self.pongs) == self.capacity()
        &&& challenge_cap(self.pending_cache) == self.capacity()
        &&& cache_wf(self.pings(), self.capacity())
        &&& cache_wf(self.pongs(), self.capacity())
        &&& cache_wf(self.pending(), self.capacity())
    }

    /// `node` answered a challenge no longer than `ttl` before `now`.
    pub open spec fn trusted(&self, now: u64, node: Node) -> bool {
        match lookup(self.pongs(), node) {
            Some(t) => elapsed(now, t) <= self.ttl(),
            None => false,
        }
    }

    /// `node` is due a challenge: it never answered, or its answer is older
    /// than an eighth of `ttl`.
    pub open spec fn challenge_due(&self, now: u64, node: Node) -> bool {
        match lookup(self.pongs(), node) {
            Some(t) => elapsed(now, t) > self.ttl() / 8,
            None => true,
        }
    }

    /// A challenge went to `node` less than `rate_limit_delay` before `now`.
    pub open spec fn rate_limited(&self, now: u64, node: Node) -> bool {
        match lookup(self.pings(), node) {
            Some(t) => elapsed(now, t) < self.rate_limit_delay(),
            None => false,
        }
    }

    /// The answers after a check of `node` at `now`: an expired answer is
    /// dropped, a live one becomes the most recently used.
    pub open spec fn pongs_after_check(&self, now: u64, node: Node) -> Seq<(Node, u64)> {
        match lookup(self.pongs(), node) {
            Some(t) => if elapsed(now, t) > self.ttl() {
                without_key(after_get(self.pongs(), node), node)
            } else {
                after_get(self.pongs(), node)
            },
            None => self.pongs(),
        }
    }

    /// A challenge with `pong`'s digest is outstanding, and went to `pong`'s
    /// sender at `socket`.
    pub open spec fn accepts(&self, pong: &Pong, socket: SocketAddress) -> bool {
        lookup(self.pending(), pong.hash) == Some((pong.from, socket))
    }

    /// An empty cache whose three maps hold up to `cap` entries each.
    pub fn new(ttl: u64, rate_limit_delay: u64, cap: usize) -> (r: PingCache)
        requires
            cap > 0,
        ensures
            r.wf(),
            r.ttl() == ttl,
            r.rate_limit_delay() == rate_limit_delay,
            r.capacity() == cap,
            r.pings() == Seq::<(Node, u64)>::empty(),
            r.pongs() == Seq::<(Node, u64)>::empty(),
            r.pending() == Seq::<(Digest, Node)>::empty(),
    {
        PingCache {
            ttl,
            rate_limit_delay,
            pings: node_times_new(cap),
            pongs: node_times_new(cap),
            pending_cache: challenges_new(cap),
        }
    }

    /// Records `pong`, received from `socket` at `now`. Succeeds only where a
    /// challenge with the pong's digest is outstanding and went to the pong's
    /// sender at `socket`; it then consumes the challenge, clears the node's
    /// last challenge time and records the answer. Otherwise nothing changes.
    pub fn add(&mut self, pong: &Pong, socket: SocketAddress, now: u64) -> (r: bool)
        requires
            old(self).wf(),
        ensures
            final(self).wf(),
            r == old(self).accepts(pong, socket),
            r ==> {
                &&& final(self).pings() == without_key(old(self).pings(), (pong.from, socket))
                &&& final(self).pongs() == after_put(
                    old(self).pongs(),
                    (pong.from, socket),
                    now,
                    old(self).capacity(),
                )
                &&& final(self).pending() == without_key(old(self).pending(), pong.hash)
                &&& final(self).ttl() == old(self).ttl()
                &&& final(self).rate_limit_delay() == old(self).rate_limit_delay()
                &&& final(self).capacity() == old(self).capacity()
            },
            !r ==> *final(self) == *old(self),
    {
        let node: Node = (pong.from, socket);
        match challenges_peek(&self.pending_cache, &pong.hash) {
            Some(value) => {
                if nodes_eq(&value, &node) {
                    node_times_pop(&mut self.pings, &node);
                    node_times_put(&mut self.pongs, node, now);
                    challenges_pop(&mut self.pending_cache, &pong.hash);
                    true
                } else {
                    false
                }
            },
            None => false,
        }
    }

    fn maybe_ping<F>(&mut self, now: u64, node: Node, mut pingf: F) -> (r: Option<Ping>)
        where
            F: FnMut() -> Option<Ping>,
        requires
            old(self).wf(),
            call_requires(pingf, ()),
        ensures
            final(self).wf(),
            final(self).pongs() == old(self).pongs(),
            final(self).ttl() == old(self).ttl(),
            final(self).rate_limit_delay() == old(self).rate_limit_delay(),
            final(self).capacity() == old(self).capacity(),
            old(self).rate_limited(now, node) ==> r is None,
            !old(self).rate_limited(now, node) ==> call_ensures(pingf, (), r),
            r matches Some(p) ==> {
                &&& final(self).pings() == after_put(old(self).pings(), node, now, old(self).capacity())
                &&& exists|h: Digest|
                    #![trigger after_put(old(self).pending(), h, node, old(self).capacity())]
                    h@ == pong_digest(p.token@) && final(self).pending() == after_put(
                        old(self).pending(),
                        h,
                        node,
                        old(self).capacity(),
                    )
            },
            r is None ==> {
                &&& final(self).pings() == old(self).pings()
                &&& final(self).pending() == old(self).pending()
            },
    {
        match node_times_peek(&self.pings, &node) {
            Some(t) => {
                if saturating_elapsed(now, t) < self.rate_limit_delay {
                    return None;
                }
            },
            None => {},
        }
        let ping = match pingf() {
            Some(p) => p,
            None => return None,
        };
        let token = match serialize_token(&ping.token) {
            Ok(bytes) => bytes,
            Err(_) => return None,
        };
        let prefix = prefix_bytes();
        let hash = hash_concat(prefix.as_slice(), token.as_slice());
        challenges_put(&mut self.pending_cache, hash, node);
        node_times_put(&mut self.pings, node, now);
        Some(ping)
    }

    /// Whether `node` is trusted at `now`, and a challenge to send it, if one
    /// is due and allowed. A challenge is due where the node never answered
    /// or its answer is older than `ttl / 8`; it is allowed where none went
    /// to the node within `rate_limit_delay` and `pingf` makes one. A new
    /// challenge is recorded as outstanding; an expired answer is dropped.
    pub fn check<F>(&mut self, now: u64, node: Node, pingf: F) -> (r: (bool, Option<Ping>))
        where
            F: FnMut() -> Option<Ping>,
        requires
            old(self).wf(),
            call_requires(pingf, ()),
        ensures
            final(self).wf(),
            r.0 == old(self).trusted(now, node),
            final(self).pongs() == old(self).pongs_after_check(now, node),
            final(self).ttl() == old(self).ttl(),
            final(self).rate_limit_delay() == old(self).rate_limit_delay(),
            final(self).capacity() == old(self).capacity(),
            !old(self).challenge_due(now, node) || old(self).rate_limited(now, node) ==> r.1 is None,
            old(self).challenge_due(now, node) && !old(self).rate_limited(now, node) ==> call_ensures(
                pingf,
                (),
                r.1,
            ),
            r.1 matches Some(p) ==> {
                &&& final(self).pings() == after_put(old(self).pings(), node, now, old(self).capacity())
                &&& exists|h: Digest|
                    #![trigger after_put(old(self).pending(), h, node, old(self).capacity())]
                    h@ == pong_digest(p.token@) && final(self).pending() == after_put(
                        old(self).pending(),
                        h,
                        node,
                        old(self).capacity(),
                    )
            },
            r.1 is None ==> {
                &&& final(self).pings() == old(self).pings()
                &&& final(self).pending() == old(self).pending()
            },
    {
        let (check, should_ping) = match node_times_get(&mut self.pongs, &node) {
            None => (false, true),
            Some(t) => {
                let age = saturating_elapsed(now, t);
                if age > self.ttl {
                    node_times_pop(&mut self.pongs, &node);
                }
                (age <= self.ttl, age > self.ttl / 8)
            },
        };
        let ping = if should_ping {
            self.maybe_ping(now, node, pingf)
        } else {
            None
        };
        (check, ping)
    }
}

/// What well-formedness gives: a positive capacity, and in each of the three
/// caches unique keys and no more entries than the capacity.
pub proof fn lemma_wf_facts(c: PingCache)
    requires
        c.wf(),
    ensures
        c.capacity() > 0,
        cache_wf(c.pings(), c.capacity()),
        cache_wf(c.pongs(), c.capacity()),
        cache_wf(c.pending(), c.capacity()),
{
}

/// After a check sent a challenge to `node` at `sent` with digest `hash`,
/// the cache records that challenge time and that outstanding challenge.
pub proof fn lemma_challenge_recorded(c1: PingCache, c2: PingCache, sent: u64, node: Node, hash: Digest)
    requires
        c2.wf(),
        c2.pings() == after_put(c1.pings(), node, sent, c1.capacity()),
        c2.pending() == after_put(c1.pending(), hash, node, c1.capacity()),
    ensures
        lookup(c2.pings(), node) == Some(sent),
        lookup(c2.pending(), hash) == Some(node),
{
    crate::lru_model::lemma_put_then_lookup(c1.pings(), node, sent, c1.capacity());
    crate::lru_model::lemma_put_then_lookup(c1.pending(), hash, node, c1.capacity());
}

/// A node that neither answered nor was challenged is not trusted, is due a
/// challenge, and may be challenged at once.
pub proof fn lemma_unseen_node_challenged(c: PingCache, now: u64, node: Node)
    requires
        lookup(c.pongs(), node) is None,
        lookup(c.pings(), node) is None,
    ensures
        !c.trusted(now, node),
        c.challenge_due(now, node),
        !c.rate_limited(now, node),
{
}

/// A challenge to a node not in a full challenge-time cache evicts the least
/// recently challenged node, which may then be challenged at once, as if it
/// had never been; every other node keeps its record.
pub proof fn lemma_challenge_evicts_least_recent(c1: PingCache, c2: PingCache, sent: u64, node: Node, now: u64)
    requires
        c1.wf(),
        c1.pings().len() == c1.capacity(),
        !has_key(c1.pings(), node),
        c2.pings() == after_put(c1.pings(), node, sent, c1.capacity()),
    ensures
        !c2.rate_limited(now, c1.pings()[0].0),
        forall|j: int|
            1 <= j < c1.pings().len() ==> lookup(c2.pings(), #[trigger] c1.pings()[j].0) == Some(
                c1.pings()[j].1,
            ),
{
    lemma_full_put_evicts_least_recent(c1.pings(), node, sent, c1.capacity());
}

/// After a challenge went to a node that was not trusted, a check of that
/// node within `rate_limit_delay` finds it still untrusted and sends no
/// challenge.
pub proof fn lemma_second_check_rate_limited(c1: PingCache, c2: PingCache, sent: u64, now: u64, node: Node)
    requires
        c2.wf(),
        !c1.trusted(sent, node),
        c2.pongs() == c1.pongs_after_check(sent, node),
        c2.pings() == after_put(c1.pings(), node, sent, c1.capacity()),
        sent <= now,
        now - sent < c2.rate_limit_delay(),
    ensures
        !c2.trusted(now, node),
        c2.rate_limited(now, node),
{
    crate::lru_model::lemma_put_then_lookup(c1.pings(), node, sent, c1.capacity());
    crate::lru_model::lemma_removed_lookup(after_get(c1.pongs(), node), node);
}

/// Once `rate_limit_delay` has passed since the last challenge to a node, or
/// that record is gone, the node may be challenged again.
pub proof fn lemma_rate_limit_lapses(c: PingCache, now: u64, node: Node)
    requires
        lookup(c.pings(), node) matches Some(t) ==> now >= t + c.rate_limit_delay(),
    ensures
        !c.rate_limited(now, node),
{
}

/// `add` refuses a pong whose digest is not outstanding.
pub proof fn lemma_unknown_digest_refused(c: PingCache, pong: Pong, socket: SocketAddress)
    requires
        lookup(c.pending(), pong.hash) is None,
    ensures
        !c.accepts(&pong, socket),
{
}

/// `add` refuses a pong whose digest is outstanding for another address.
pub proof fn lemma_other_socket_refused(
    c: PingCache,
    pong: Pong,
    expected: SocketAddress,
    socket: SocketAddress,
)
    requires
        lookup(c.pending(), pong.hash) == Some((pong.from, expected)),
        socket != expected,
    ensures
        !c.accepts(&pong, socket),
{
}

/// After `add` accepted a pong at `added`, the node is trusted at any time up
/// to `ttl` later, and the same pong is refused from then on.
pub proof fn lemma_answer_trusted_and_consumed(
    c1: PingCache,
    c2: PingCache,
    pong: Pong,
    socket: SocketAddress,
    added: u64,
    now: u64,
    other: SocketAddress,
)
    requires
        c2.wf(),
        c2.pongs() == after_put(c1.pongs(), (pong.from, socket), added, c1.capacity()),
        c2.pending() == without_key(c1.pending(), pong.hash),
        added <= now,
        now - added <= c2.ttl(),
    ensures
        c2.trusted(now, (pong.from, socket)),
        !c2.accepts(&pong, other),
{
    crate::lru_model::lemma_put_then_lookup(c1.pongs(), (pong.from, socket), added, c1.capacity());
    crate::lru_model::lemma_removed_lookup(c1.pending(), pong.hash);
}

} // verus!
