//! What to do with one inbound datagram: answer a ping, record a pong, and
//! drop everything else without a reply.

use vstd::prelude::*;
use crate::crypto::{Identity, ed25519_signature, signature_valid};
use crate::lru_model::{SocketAddress, after_put, without_key};
use crate::ping_pong::{PingCache, PingPongErros, Ping, Pong, pong_digest};
use crate::protocol::{Challenge, Protocol, is_ping_message, is_pong_message, read_challenge};
use crate::wire::enc_u32;

verus! {

/// The pong message that answers a ping with `token`, made with `keypair`:
/// the variant index, the responder's key, the digest and its signature.
pub open spec fn pong_reply(token: Seq<u8>, keypair: Identity) -> Seq<u8> {
    enc_u32(5) + keypair.public_key()@ + pong_digest(token) + ed25519_signature(
        keypair.key_pair_bytes(),
        pong_digest(token),
    )
}

/// The signature in the pong that answers a ping with `token` verifies under
/// the responder's key.
pub open spec fn pong_reply_verifies(token: Seq<u8>, keypair: Identity) -> bool {
    signature_valid(
        ed25519_signature(keypair.key_pair_bytes(), pong_digest(token)),
        keypair.public_key()@,
        pong_digest(token),
    )
}

/// The pong that the datagram holds, read field by field.
pub open spec fn holds_pong(bytes: Seq<u8>, pong: Pong) -> bool {
    &&& pong.from@ == bytes.subrange(4, 36)
    &&& pong.hash@ == bytes.subrange(36, 68)
    &&& pong.signature@ == bytes.subrange(68, 132)
}

impl Ping {
    /// The pong message that answers this ping, signed with `keypair`.
    pub fn reply(&self, keypair: &Identity) -> (r: Result<Vec<u8>, PingPongErros>)
        ensures
            r is Ok,
            r->Ok_0@ == pong_reply(self.token@, *keypair),
            pong_reply_verifies(self.token@, *keypair),
    {
        let pong = match Pong::new(self, keypair) {
            Ok(p) => p,
            Err(_) => return Err(PingPongErros::FailedToCreatePong),
        };
        let message = Protocol::PongMessage(pong);
        let bytes = message.to_bytes();
        assert(bytes@ =~= pong_reply(self.token@, *keypair));
        Ok(bytes)
    }
}

/// Handles a datagram received from `from` at `now`, and returns the reply
/// to send back to `from`, if any.
///
/// A ping is answered with a pong and leaves the cache as it is. A pong goes
/// to `PingCache::add` with the sender's address. Anything else, including
/// bytes that do not read as a message, is dropped with no reply.
pub fn process_datagram(
    cache: &mut PingCache,
    keypair: &Identity,
    message: &[u8],
    from: SocketAddress,
    now: u64,
) -> (r: Option<Vec<u8>>)
    requires
        old(cache).wf(),
    ensures
        final(cache).wf(),
        is_ping_message(message@) ==> {
            &&& *final(cache) == *old(cache)
            &&& r is Some
            &&& r->Some_0@ == pong_reply(message@.subrange(36, 68), *keypair)
            &&& pong_reply_verifies(message@.subrange(36, 68), *keypair)
        },
        is_pong_message(message@) ==> {
            &&& r is None
            &&& exists|pong: Pong|
                #![trigger old(cache).accepts(&pong, from)]
                holds_pong(message@, pong) && if old(cache).accepts(&pong, from) {
                    &&& final(cache).pings() == without_key(old(cache).pings(), (pong.from, from))
                    &&& final(cache).pongs() == after_put(
                        old(cache).pongs(),
                        (pong.from, from),
                        now,
                        old(cache).capacity(),
                    )
                    &&& final(cache).pending() == without_key(old(cache).pending(), pong.hash)
                } else {
                    *final(cache) == *old(cache)
                }
        },
        !is_ping_message(message@) && !is_pong_message(message@) ==> {
            &&& r is None
            &&& *final(cache) == *old(cache)
        },
{
    match read_challenge(message) {
        Some(Challenge::Ping(ping)) => {
            match ping.reply(keypair) {
                Ok(bytes) => Some(bytes),
                Err(_) => None,
            }
        },
        Some(Challenge::Pong(pong)) => {
            let accepted = cache.add(&pong, from, now);
            assert(holds_pong(message@, pong));
            None
        },
        None => None,
    }
}

} // verus!
