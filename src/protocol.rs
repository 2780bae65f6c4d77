//! The outer message of the wire protocol, and reading the messages that the
//! liveness challenge acts on.

use vstd::prelude::*;
use crate::contact_info::DataFilter;
use crate::gossip_data::GossipValue;
use crate::ping_pong::{Ping, Pong};
use crate::reader::{le_value, read_array32_at, read_array64_at};
use crate::wire::{enc_u32, put_u32};

verus! {

/// A message on the wire: the variant index as 32 bits, then its fields.
#[derive(Debug)]
pub enum Protocol {
    PullRequest(DataFilter, GossipValue),
    PullResponse,
    PushMessage,
    PruneMessage,
    PingMessage(Ping),
    PongMessage(Pong),
}

impl Protocol {
    /// The wire form.
    pub open spec fn enc(&self) -> Seq<u8> {
        match self {
            Protocol::PullRequest(f, v) => enc_u32(0) + f.enc() + v.enc(),
            Protocol::PullResponse => enc_u32(1),
            Protocol::PushMessage => enc_u32(2),
            Protocol::PruneMessage => enc_u32(3),
            Protocol::PingMessage(p) => enc_u32(4) + p.enc(),
            Protocol::PongMessage(p) => enc_u32(5) + p.enc(),
        }
    }

    /// The wire form, as a new vector.
    pub fn to_bytes(&self) -> (r: Vec<u8>)
        ensures
            r@ == self.enc(),
    {
        let mut out: Vec<u8> = Vec::new();
        match self {
            Protocol::PullRequest(f, v) => {
                put_u32(&mut out, 0);
                f.encode(&mut out);
                v.encode(&mut out);
            },
            Protocol::PullResponse => put_u32(&mut out, 1),
            Protocol::PushMessage => put_u32(&mut out, 2),
            Protocol::PruneMessage => put_u32(&mut out, 3),
            Protocol::PingMessage(p) => {
                put_u32(&mut out, 4);
                p.encode(&mut out);
            },
            Protocol::PongMessage(p) => {
                put_u32(&mut out, 5);
                p.encode(&mut out);
            },
        }
        assert(out@ =~= self.enc());
        out
    }
}

/// The variant index a message starts with, where it holds four bytes.
pub open spec fn message_tag(b: Seq<u8>) -> Option<nat> {
    if b.len() >= 4 {
        Some(le_value(b.take(4)))
    } else {
        None
    }
}

/// Length of a ping or pong after the variant index: key, 32 bytes, signature.
pub const CHALLENGE_BODY_LEN: usize = 128;

/// The message holds a whole ping.
pub open spec fn is_ping_message(b: Seq<u8>) -> bool {
    message_tag(b) == Some(4nat) && b.len() >= 132
}

/// The message holds a whole pong.
pub open spec fn is_pong_message(b: Seq<u8>) -> bool {
    message_tag(b) == Some(5nat) && b.len() >= 132
}

/// What a message that the liveness challenge acts on reads as.
#[derive(Debug)]
pub enum Challenge {
    Ping(Ping),
    Pong(Pong),
}

fn read_tag(b: &[u8]) -> (r: u64)
    requires
        b@.len() >= 4,
    ensures
        r == le_value(b@.take(4)),
{
    let ghost t = b@.take(4);
    let ghost t1 = t.drop_first();
    let ghost t2 = t1.drop_first();
    let ghost t3 = t2.drop_first();
    let ghost t4 = t3.drop_first();
    assert(t4.len() == 0);
    assert(le_value(t4) == 0);
    assert(le_value(t3) == t[3] as nat + 256 * le_value(t4));
    assert(le_value(t2) == t[2] as nat + 256 * le_value(t3));
    assert(le_value(t1) == t[1] as nat + 256 * le_value(t2));
    assert(le_value(t) == t[0] as nat + 256 * le_value(t1));
    b[0] as u64 + 256 * (b[1] as u64 + 256 * (b[2] as u64 + 256 * b[3] as u64))
}

/// Reads a ping or a pong. Anything else, whether another message, a short
/// one or an unknown index, reads as `None`; bytes after the pong or ping are
/// ignored.
pub fn read_challenge(b: &[u8]) -> (r: Option<Challenge>)
    ensures
        r is None <==> !is_ping_message(b@) && !is_pong_message(b@),
        r matches Some(Challenge::Ping(p)) ==> {
            &&& is_ping_message(b@)
            &&& p.from@ == b@.subrange(4, 36)
            &&& p.token@ == b@.subrange(36, 68)
            &&& p.signature@ == b@.subrange(68, 132)
        },
        r matches Some(Challenge::Pong(p)) ==> {
            &&& is_pong_message(b@)
            &&& p.from@ == b@.subrange(4, 36)
            &&& p.hash@ == b@.subrange(36, 68)
            &&& p.signature@ == b@.subrange(68, 132)
        },
{
    if b.len() < 4 + CHALLENGE_BODY_LEN {
        return None;
    }
    let tag = read_tag(b);
    if tag != 4 && tag != 5 {
        return None;
    }
    let (from, middle, signature) = match (
        read_array32_at(b, 4),
        read_array32_at(b, 36),
        read_array64_at(b, 68),
    ) {
        (Some((from, _)), Some((middle, _)), Some((signature, _))) => (from, middle, signature),
        _ => return None,
    };
    if tag == 4 {
        Some(Challenge::Ping(Ping { from, token: middle, signature }))
    } else {
        Some(Challenge::Pong(Pong { from, hash: middle, signature }))
    }
}

} // verus!
