//! A node's contact information, the legacy form of it, and the filter that a
//! pull request carries.

use vstd::prelude::*;
use crate::crypto::Pubkey;
use crate::lru_model::SocketAddress;
use crate::reader::{
    read_array32_at, read_u64_at, be_value, lemma_be_bytes_of_value, lemma_be_value_bound, lemma_be_value_concat,
    lemma_be_value_of_bytes, lemma_le_bytes_injective, lemma_le_round_trip, lemma_pow256_values,
    pow256, read_be, read_u16_at, read_u32_at,
};
use crate::wire::{
    is_prefix, lemma_concat_map_at, le_bytes, concat_map, enc_bytes, enc_len, enc_u16, enc_u32, enc_u64, enc_vec, lemma_concat_map_step,
    put_bytes, put_len, put_raw, put_u16, put_u32, put_u64,
};

verus! {

/// The `n` low bytes of `v`, most significant first.
pub open spec fn be_bytes(v: nat, n: nat) -> Seq<u8>
    decreases n,
{
    if n == 0 {
        Seq::empty()
    } else {
        be_bytes(v / 256, (n - 1) as nat) + seq![(v % 256) as u8]
    }
}

/// The 96 high bits of an IPv4-mapped IPv6 address: `::ffff`.
pub open spec fn is_ipv4_mapped(ip: u128) -> bool {
    ip / 0x1_0000_0000 == 0xffff
}

/// A socket address as std's `SocketAddr` travels: variant 0 with the four
/// octets of an IPv4 address, or variant 1 with the sixteen of an IPv6 one,
/// then the port.
#[verifier::opaque]
pub open spec fn enc_socket(a: SocketAddress) -> Seq<u8> {
    if is_ipv4_mapped(a.0) {
        enc_u32(0) + be_bytes(a.0 as nat, 4) + enc_u16(a.1)
    } else {
        enc_u32(1) + be_bytes(a.0 as nat, 16) + enc_u16(a.1)
    }
}

pub open spec fn socket_enc() -> spec_fn(SocketAddress) -> Seq<u8> {
    |a: SocketAddress| enc_socket(a)
}

fn put_be(out: &mut Vec<u8>, v: u128, n: usize)
    requires
        n <= 16,
    ensures
        final(out)@ == old(out)@ + be_bytes(v as nat, n as nat),
    decreases n,
{
    if n > 0 {
        put_be(out, v / 256, n - 1);
        out.push((v % 256) as u8);
        assert(out@ =~= old(out)@ + be_bytes(v as nat, n as nat));
    } else {
        assert(out@ =~= old(out)@ + be_bytes(v as nat, n as nat));
    }
}

/// Appends a socket address.
pub fn put_socket(out: &mut Vec<u8>, a: SocketAddress)
    ensures
        final(out)@ == old(out)@ + enc_socket(a),
{
    if a.0 / 0x1_0000_0000 == 0xffff {
        put_u32(out, 0);
        put_be(out, a.0, 4);
    } else {
        put_u32(out, 1);
        put_be(out, a.0, 16);
    }
    put_u16(out, a.1);
    reveal(enc_socket);
    assert(out@ =~= old(out)@ + enc_socket(a));
}

/// `s` begins with the wire form of `a`.
pub open spec fn starts_with_socket(s: Seq<u8>, a: SocketAddress) -> bool {
    enc_socket(a).len() <= s.len() && s.take(enc_socket(a).len() as int) == enc_socket(a)
}

/// The parts of a socket address's wire form, and their lengths.
pub proof fn lemma_socket_layout(a: SocketAddress)
    ensures
        is_ipv4_mapped(a.0) ==> enc_socket(a) == enc_u32(0) + be_bytes(a.0 as nat, 4) + enc_u16(a.1),
        !is_ipv4_mapped(a.0) ==> enc_socket(a) == enc_u32(1) + be_bytes(a.0 as nat, 16) + enc_u16(
            a.1,
        ),
        enc_socket(a).len() == if is_ipv4_mapped(a.0) {
            10int
        } else {
            22int
        },
        enc_u32(0).len() == 4,
        enc_u32(1).len() == 4,
        be_bytes(a.0 as nat, 4).len() == 4,
        be_bytes(a.0 as nat, 16).len() == 16,
        enc_u16(a.1).len() == 2,
{
    reveal(enc_socket);
    lemma_pow256_values();
    lemma_le_round_trip(0, 4);
    lemma_le_round_trip(1, 4);
    lemma_le_round_trip(a.1 as nat, 2);
    lemma_be_value_of_bytes(a.0 as nat, 4);
    lemma_be_value_of_bytes(a.0 as nat, 16);
}

/// Two socket addresses whose wire forms both begin `s` are the same.
pub proof fn lemma_socket_unique(s: Seq<u8>, a1: SocketAddress, a2: SocketAddress)
    requires
        starts_with_socket(s, a1),
        starts_with_socket(s, a2),
    ensures
        a1 == a2,
{
    lemma_socket_layout(a1);
    lemma_socket_layout(a2);
    lemma_pow256_values();
    let e1 = enc_socket(a1);
    let e2 = enc_socket(a2);
    let t1: nat = if is_ipv4_mapped(a1.0) { 0 } else { 1 };
    let t2: nat = if is_ipv4_mapped(a2.0) { 0 } else { 1 };
    assert(e1.take(4) =~= s.take(4));
    assert(e2.take(4) =~= s.take(4));
    lemma_le_round_trip(t1, 4);
    lemma_le_round_trip(t2, 4);
    assert(e1.take(4) =~= le_bytes(t1, 4));
    assert(e2.take(4) =~= le_bytes(t2, 4));
    lemma_le_bytes_injective(t1, t2, 4);
    assert(e1 =~= e2);
    let w: int = if t1 == 0 { 4 } else { 16 };
    let o1 = be_bytes(a1.0 as nat, w as nat);
    let o2 = be_bytes(a2.0 as nat, w as nat);
    lemma_be_value_of_bytes(a1.0 as nat, w as nat);
    lemma_be_value_of_bytes(a2.0 as nat, w as nat);
    assert(o1 =~= e1.subrange(4, 4 + w));
    assert(o2 =~= e2.subrange(4, 4 + w));
    let x = a1.0 as nat;
    let y = a2.0 as nat;
    if t1 == 0 {
        assert(x == y) by (nonlinear_arith)
            requires
                x / 0x1_0000_0000 == 0xffff,
                y / 0x1_0000_0000 == 0xffff,
                x % 0x1_0000_0000 == y % 0x1_0000_0000,
        ;
    } else {
        assert(x % pow256(16) == x);
        assert(y % pow256(16) == y);
    }
    lemma_le_round_trip(a1.1 as nat, 2);
    lemma_le_round_trip(a2.1 as nat, 2);
    assert(enc_u16(a1.1) =~= e1.subrange(4 + w, 6 + w));
    assert(enc_u16(a2.1) =~= e2.subrange(4 + w, 6 + w));
    lemma_le_bytes_injective(a1.1 as nat, a2.1 as nat, 2);
}

/// What reading the start of a socket address's wire form finds.
pub proof fn lemma_socket_prefix(s: Seq<u8>, w: SocketAddress)
    requires
        starts_with_socket(s, w),
    ensures
        s.len() >= if is_ipv4_mapped(w.0) {
            10int
        } else {
            22int
        },
        forall|t: u32|
            #[trigger] enc_u32(t) == s.take(4) ==> t == if is_ipv4_mapped(w.0) {
                0u32
            } else {
                1u32
            },
        is_ipv4_mapped(w.0) ==> be_value(s.subrange(4, 8)) == w.0 % 0x1_0000_0000,
        !is_ipv4_mapped(w.0) ==> be_value(s.subrange(4, 20)) == w.0,
{
    lemma_socket_layout(w);
    lemma_pow256_values();
    let e = enc_socket(w);
    let tw: u32 = if is_ipv4_mapped(w.0) { 0 } else { 1 };
    assert(e.take(4) =~= s.take(4));
    assert(e.take(4) =~= enc_u32(tw));
    assert forall|t: u32| #[trigger] enc_u32(t) == s.take(4) implies t == tw by {
        lemma_le_bytes_injective(t as nat, tw as nat, 4);
    }
    if is_ipv4_mapped(w.0) {
        lemma_be_value_of_bytes(w.0 as nat, 4);
        assert(s.subrange(4, 8) =~= e.subrange(4, 8));
        assert(e.subrange(4, 8) =~= be_bytes(w.0 as nat, 4));
    } else {
        lemma_be_value_of_bytes(w.0 as nat, 16);
        assert(s.subrange(4, 20) =~= e.subrange(4, 20));
        assert(e.subrange(4, 20) =~= be_bytes(w.0 as nat, 16));
        assert(w.0 as nat % pow256(16) == w.0 as nat);
    }
}

/// Reads a socket address at `pos`, and the position after it. An IPv6
/// address that is IPv4-mapped is refused: such an address travels as IPv4.
pub fn read_socket(b: &[u8], pos: usize) -> (r: Option<(SocketAddress, usize)>)
    ensures
        r matches Some((a, p)) ==> pos < p <= b@.len() && b@.subrange(pos as int, p as int)
            == enc_socket(a),
        forall|a: SocketAddress|
            pos <= b@.len() && #[trigger] starts_with_socket(b@.skip(pos as int), a) ==> r == Some(
                (a, (pos + enc_socket(a).len()) as usize),
            ),
{
    let ghost found = pos <= b@.len() && exists|a: SocketAddress|
        starts_with_socket(b@.skip(pos as int), a);
    let ghost w: SocketAddress = if found {
        choose|a: SocketAddress| starts_with_socket(b@.skip(pos as int), a)
    } else {
        (0, 0)
    };
    proof {
        if found {
            lemma_socket_prefix(b@.skip(pos as int), w);
        }
    }
    let (tag, off1) = match read_u32_at(b, pos) {
        Some(x) => x,
        None => return None,
    };
    assert(found ==> b@.skip(pos as int).take(4) =~= b@.subrange(pos as int, off1 as int));
    let width: usize = if tag == 0 {
        4
    } else if tag == 1 {
        16
    } else {
        return None;
    };
    if b.len() < width || off1 > b.len() - width {
        return None;
    }
    let raw = read_be(b, off1, width);
    let (port, off2) = match read_u16_at(b, off1 + width) {
        Some(x) => x,
        None => return None,
    };
    assert(found && width == 4 ==> b@.skip(pos as int).subrange(4, 8) =~= b@.subrange(
        off1 as int,
        off1 + 4,
    ));
    assert(found && width == 16 ==> b@.skip(pos as int).subrange(4, 20) =~= b@.subrange(
        off1 as int,
        off1 + 16,
    ));
    let ghost octets = b@.subrange(off1 as int, off1 + width);
    proof {
        lemma_be_value_bound(octets);
    }
    let ip: u128 = if tag == 0 {
        assert(pow256(4) == 0x1_0000_0000) by {
            reveal_with_fuel(pow256, 5);
        }
        let ip = 0xffff_0000_0000u128 + raw;
        proof {
            let prefix = Seq::new(10, |i: int| 0u8) + seq![0xffu8, 0xff];
            let full = prefix + octets;
            lemma_zeros_value(10);
            lemma_be_value_concat(Seq::new(10, |i: int| 0u8), seq![0xffu8, 0xff]);
            assert(be_value(seq![0xffu8, 0xff]) == 0xffff) by {
                let t = seq![0xffu8, 0xff];
                let t1 = t.drop_last();
                let t0 = t1.drop_last();
                assert(t1 =~= seq![0xffu8]);
                assert(t0 =~= Seq::<u8>::empty());
                assert(be_value(t0) == 0);
                assert(be_value(t1) == be_value(t0) * 256 + 0xff);
                assert(be_value(t) == be_value(t1) * 256 + 0xff);
            }
            assert(pow256(2) == 0x1_0000) by {
                reveal_with_fuel(pow256, 3);
            }
            assert(be_value(Seq::new(10, |i: int| 0u8)) == 0);
            assert(be_value(prefix) == 0 * pow256(2) + 0xffff);
            assert(0 * pow256(2) == 0) by (nonlinear_arith);
            assert(be_value(prefix) == 0xffff);
            lemma_be_value_concat(prefix, octets);
            assert(octets.len() == 4);
            assert(be_value(full) == 0xffff * pow256(4) + raw);
            lemma_be_bytes_of_value(full, 4);
            assert(full.subrange(12, 16) =~= octets);
            assert(ip / 0x1_0000_0000 == 0xffff) by (nonlinear_arith)
                requires
                    ip == 0xffff_0000_0000 + raw,
                    raw < 0x1_0000_0000,
            ;
            assert(be_value(full) == ip);
            assert(be_bytes(ip as nat, 4) == octets);
        }
        ip
    } else {
        if raw / 0x1_0000_0000 == 0xffff {
            return None;
        }
        proof {
            lemma_be_bytes_of_value(octets, 16);
            assert(octets.subrange(0, 16) =~= octets);
            assert(be_bytes(raw as nat, 16) == octets);
        }
        raw
    };
    assert(tag == 0 ==> be_bytes(ip as nat, 4) == octets && is_ipv4_mapped(ip));
    assert(tag == 1 ==> be_bytes(ip as nat, 16) == octets && !is_ipv4_mapped(ip));
    let a: SocketAddress = (ip, port);
    proof {
        lemma_socket_layout(a);
        assert(b@.subrange(pos as int, off2 as int) =~= b@.subrange(pos as int, off1 as int) + octets
            + b@.subrange(off1 + width, off2 as int));
        assert(starts_with_socket(b@.skip(pos as int), a)) by {
            assert(b@.skip(pos as int).take(enc_socket(a).len() as int) =~= b@.subrange(
                pos as int,
                off2 as int,
            ));
        }
        assert forall|x: SocketAddress|
            pos <= b@.len() && #[trigger] starts_with_socket(b@.skip(pos as int), x) implies x
            == a by {
            lemma_socket_unique(b@.skip(pos as int), x, a);
        }
    }
    Some((a, off2))
}

proof fn lemma_zeros_value(n: nat)
    ensures
        be_value(Seq::new(n, |i: int| 0u8)) == 0,
    decreases n,
{
    if n > 0 {
        assert(Seq::new(n, |i: int| 0u8).drop_last() =~= Seq::new((n - 1) as nat, |i: int| 0u8));
        lemma_zeros_value((n - 1) as nat);
    }
}

fn put_sockets(out: &mut Vec<u8>, s: &Vec<SocketAddress>)
    ensures
        final(out)@ == old(out)@ + enc_vec(s@, socket_enc()),
{
    put_len(out, s.len());
    let ghost base = out@;
    let mut i: usize = 0;
    while i < s.len()
        invariant
            0 <= i <= s@.len(),
            base == old(out)@ + enc_len(s@.len()),
            out@ == base + concat_map(s@.take(i as int), socket_enc()),
        decreases s@.len() - i,
    {
        proof {
            lemma_concat_map_step(s@, socket_enc(), i as int);
        }
        put_socket(out, s[i]);
        assert(out@ =~= base + concat_map(s@.take(i + 1), socket_enc()));
        i = i + 1;
    }
    assert(s@.take(s@.len() as int) =~= s@);
    assert(out@ =~= old(out)@ + enc_vec(s@, socket_enc()));
}

/// How a node can be reached: its key, when the record was made, the shred
/// version it runs, and the socket addresses it serves on.
#[derive(Debug)]
pub struct ContactInfo {
    pub pubkey: Pubkey,
    pub wallclock: u64,
    pub shred_version: u16,
    pub sockets: Vec<SocketAddress>,
}

impl ContactInfo {
    /// The wire form.
    pub open spec fn enc(&self) -> Seq<u8> {
        self.pubkey@ + enc_u64(self.wallclock) + enc_u16(self.shred_version) + enc_vec(
            self.sockets@,
            socket_enc(),
        )
    }

    /// A record for a node reached at `gossip`.
    pub fn new(pubkey: Pubkey, wallclock: u64, shred_version: u16, gossip: SocketAddress) -> (r:
        ContactInfo)
        ensures
            r.pubkey == pubkey,
            r.wallclock == wallclock,
            r.shred_version == shred_version,
            r.sockets@ == seq![gossip],
    {
        let mut sockets: Vec<SocketAddress> = Vec::new();
        sockets.push(gossip);
        assert(sockets@ =~= seq![gossip]);
        ContactInfo { pubkey, wallclock, shred_version, sockets }
    }

    /// The node's key.
    pub fn pubkey(&self) -> (r: &Pubkey)
        ensures
            *r == self.pubkey,
    {
        &self.pubkey
    }

    /// The addresses the node serves on.
    pub fn sockets(&self) -> (r: &Vec<SocketAddress>)
        ensures
            r@ == self.sockets@,
    {
        &self.sockets
    }

    /// Appends the wire form.
    pub fn encode(&self, out: &mut Vec<u8>)
        ensures
            final(out)@ == old(out)@ + self.enc(),
    {
        put_raw(out, self.pubkey.as_slice());
        put_u64(out, self.wallclock);
        put_u16(out, self.shred_version);
        put_sockets(out, &self.sockets);
        assert(out@ =~= old(out)@ + self.enc());
    }
}

impl Default for ContactInfo {
    /// A record with a zero key and no address.
    fn default() -> (r: ContactInfo)
        ensures
            r.pubkey@ == Seq::new(32, |i: int| 0u8),
            r.wallclock == 0,
            r.shred_version == 0,
            r.sockets@.len() == 0,
    {
        let r = ContactInfo { pubkey: [0u8; 32], wallclock: 0, shred_version: 0, sockets: Vec::new() };
        assert(r.pubkey@ =~= Seq::new(32, |i: int| 0u8));
        r
    }
}

/// Two records with the same fields, compared by their views.
pub open spec fn same_contact_info(a: ContactInfo, b: ContactInfo) -> bool {
    &&& a.pubkey@ == b.pubkey@
    &&& a.wallclock == b.wallclock
    &&& a.shred_version == b.shred_version
    &&& a.sockets@ == b.sockets@
}

/// What the start of a contact record's wire form holds.
pub proof fn lemma_contact_info_prefix(s: Seq<u8>, c: ContactInfo)
    requires
        is_prefix(s, c.enc()),
        s.len() <= usize::MAX,
    ensures
        s.len() >= 50 + concat_map(c.sockets@, socket_enc()).len(),
        s.take(32) == c.pubkey@,
        s.subrange(32, 40) == enc_u64(c.wallclock),
        s.subrange(40, 42) == enc_u16(c.shred_version),
        c.sockets@.len() < pow256(8),
        s.subrange(42, 50) == le_bytes(c.sockets@.len(), 8),
        s.subrange(50, 50 + concat_map(c.sockets@, socket_enc()).len() as int) == concat_map(
            c.sockets@,
            socket_enc(),
        ),
        c.enc().len() == 50 + concat_map(c.sockets@, socket_enc()).len(),
{
    lemma_pow256_values();
    lemma_le_round_trip(c.wallclock as nat, 8);
    lemma_le_round_trip(c.shred_version as nat, 2);
    let e = c.enc();
    let cm = concat_map(c.sockets@, socket_enc());
    lemma_le_round_trip(cm.len() % pow256(8), 8);
    assert(c.sockets@.len() < pow256(8)) by {
        lemma_concat_map_len_ge(c.sockets@);
    }
    lemma_le_round_trip(c.sockets@.len(), 8);
    assert(e.len() == 50 + cm.len());
    assert(s.take(32) =~= e.subrange(0, 32));
    assert(s.subrange(32, 40) =~= e.subrange(32, 40));
    assert(s.subrange(40, 42) =~= e.subrange(40, 42));
    assert(s.subrange(42, 50) =~= e.subrange(42, 50));
    assert(s.subrange(50, 50 + cm.len() as int) =~= e.subrange(50, 50 + cm.len() as int));
    assert(e.subrange(0, 32) =~= c.pubkey@);
    assert(e.subrange(32, 40) =~= enc_u64(c.wallclock));
    assert(e.subrange(40, 42) =~= enc_u16(c.shred_version));
    assert(e.subrange(42, 50) =~= le_bytes(c.sockets@.len(), 8));
    assert(e.subrange(50, 50 + cm.len() as int) =~= cm);
}

/// Each socket address takes at least one byte, so a list of them is no
/// longer than its wire form.
pub proof fn lemma_concat_map_len_ge(s: Seq<SocketAddress>)
    ensures
        concat_map(s, socket_enc()).len() >= s.len(),
    decreases s.len(),
{
    if s.len() > 0 {
        lemma_concat_map_len_ge(s.drop_last());
        lemma_socket_layout(s.last());
    }
}

/// Reads a contact record at `pos`, and the position after it.
pub fn read_contact_info_at(b: &[u8], pos: usize) -> (r: Option<(ContactInfo, usize)>)
    ensures
        r matches Some((c, p)) ==> pos < p <= b@.len() && b@.subrange(pos as int, p as int)
            == c.enc(),
        forall|c: ContactInfo|
            pos <= b@.len() && #[trigger] is_prefix(b@.skip(pos as int), c.enc()) ==> (
            r matches Some((c2, p)) && same_contact_info(c2, c) && p == pos + c.enc().len()),
{
    let blen = b.len();
    proof {
        lemma_pow256_values();
    }
    let (pubkey, off1) = match read_array32_at(b, pos) {
        Some(x) => x,
        None => {
            assert forall|c: ContactInfo|
                pos <= b@.len() && #[trigger] is_prefix(b@.skip(pos as int), c.enc()) implies false by {
                lemma_contact_info_prefix(b@.skip(pos as int), c);
            }
            return None;
        },
    };
    let (wallclock, off2) = match read_u64_at(b, off1) {
        Some(x) => x,
        None => {
            assert forall|c: ContactInfo|
                pos <= b@.len() && #[trigger] is_prefix(b@.skip(pos as int), c.enc()) implies false by {
                lemma_contact_info_prefix(b@.skip(pos as int), c);
            }
            return None;
        },
    };
    let (shred_version, off3) = match read_u16_at(b, off2) {
        Some(x) => x,
        None => {
            assert forall|c: ContactInfo|
                pos <= b@.len() && #[trigger] is_prefix(b@.skip(pos as int), c.enc()) implies false by {
                lemma_contact_info_prefix(b@.skip(pos as int), c);
            }
            return None;
        },
    };
    let (count, off4) = match read_u64_at(b, off3) {
        Some(x) => x,
        None => {
            assert forall|c: ContactInfo|
                pos <= b@.len() && #[trigger] is_prefix(b@.skip(pos as int), c.enc()) implies false by {
                lemma_contact_info_prefix(b@.skip(pos as int), c);
            }
            return None;
        },
    };
    assert forall|c: ContactInfo|
        pos <= b@.len() && #[trigger] is_prefix(b@.skip(pos as int), c.enc()) implies {
        &&& pubkey@ == c.pubkey@
        &&& wallclock == c.wallclock
        &&& shred_version == c.shred_version
        &&& count == c.sockets@.len()
        &&& b@.skip(off4 as int).take(concat_map(c.sockets@, socket_enc()).len() as int)
            == concat_map(c.sockets@, socket_enc())
        &&& off4 + concat_map(c.sockets@, socket_enc()).len() <= b@.len()
    } by {
        let t = b@.skip(pos as int);
        lemma_contact_info_prefix(t, c);
        assert(t.take(32) =~= b@.subrange(pos as int, off1 as int));
        assert(t.subrange(32, 40) =~= b@.subrange(off1 as int, off2 as int));
        lemma_le_bytes_injective(wallclock as nat, c.wallclock as nat, 8);
        assert(t.subrange(40, 42) =~= b@.subrange(off2 as int, off3 as int));
        lemma_le_bytes_injective(shred_version as nat, c.shred_version as nat, 2);
        assert(t.subrange(42, 50) =~= b@.subrange(off3 as int, off4 as int));
        lemma_le_bytes_injective(count as nat, c.sockets@.len(), 8);
        let cm = concat_map(c.sockets@, socket_enc());
        assert(b@.skip(off4 as int).take(cm.len() as int) =~= t.subrange(50, 50 + cm.len() as int));
    }
    let mut sockets: Vec<SocketAddress> = Vec::new();
    let mut at = off4;
    let mut i: u64 = 0;
    while i < count
        invariant
            blen == b@.len(),
            off4 <= at <= b@.len(),
            pos < off4,
            i as nat == sockets@.len(),
            i <= count,
            b@.subrange(off4 as int, at as int) == concat_map(sockets@, socket_enc()),
            forall|c: ContactInfo|
                pos <= b@.len() && #[trigger] is_prefix(b@.skip(pos as int), c.enc()) ==> {
                    &&& count == c.sockets@.len()
                    &&& sockets@ == c.sockets@.take(i as int)
                    &&& at == off4 + concat_map(c.sockets@.take(i as int), socket_enc()).len()
                    &&& b@.skip(off4 as int).take(concat_map(c.sockets@, socket_enc()).len() as int)
                        == concat_map(c.sockets@, socket_enc())
                    &&& off4 + concat_map(c.sockets@, socket_enc()).len() <= b@.len()
                },
        decreases count - i,
    {
        assert forall|c: ContactInfo|
            pos <= b@.len() && #[trigger] is_prefix(b@.skip(pos as int), c.enc()) implies
            starts_with_socket(b@.skip(at as int), c.sockets@[i as int]) by {
            let all = c.sockets@;
            let cm = concat_map(all, socket_enc());
            lemma_concat_map_at(all, socket_enc(), i as int);
            let before = concat_map(all.take(i as int), socket_enc());
            let one = enc_socket(all[i as int]);
            assert(b@.skip(at as int).take(one.len() as int) =~= cm.subrange(
                before.len() as int,
                before.len() + one.len() as int,
            ));
            assert(cm.subrange(before.len() as int, before.len() + one.len() as int) =~= one);
        }
        let (a, next) = match read_socket(b, at) {
            Some(x) => x,
            None => {
                assert forall|c: ContactInfo|
                    pos <= b@.len() && #[trigger] is_prefix(b@.skip(pos as int), c.enc()) implies false by {
                    assert(starts_with_socket(b@.skip(at as int), c.sockets@[i as int]));
                }
                return None;
            },
        };
        let ghost before = sockets@;
        sockets.push(a);
        assert(sockets@.drop_last() =~= before);
        assert(b@.subrange(off4 as int, next as int) =~= b@.subrange(off4 as int, at as int)
            + b@.subrange(at as int, next as int));
        assert forall|c: ContactInfo|
            pos <= b@.len() && #[trigger] is_prefix(b@.skip(pos as int), c.enc()) implies {
            &&& sockets@ == c.sockets@.take(i + 1)
            &&& next == off4 + concat_map(c.sockets@.take(i + 1), socket_enc()).len()
        } by {
            assert(starts_with_socket(b@.skip(at as int), c.sockets@[i as int]));
            lemma_concat_map_step(c.sockets@, socket_enc(), i as int);
            assert(c.sockets@.take(i + 1) =~= c.sockets@.take(i as int).push(c.sockets@[i as int]));
        }
        at = next;
        i = i + 1;
    }
    let ghost socks = sockets@;
    let c = ContactInfo { pubkey, wallclock, shred_version, sockets };
    assert(b@.subrange(pos as int, at as int) =~= b@.subrange(pos as int, off1 as int) + b@.subrange(
        off1 as int,
        off2 as int,
    ) + b@.subrange(off2 as int, off3 as int) + b@.subrange(off3 as int, off4 as int) + b@.subrange(
        off4 as int,
        at as int,
    ));
    proof {
        lemma_le_round_trip(count as nat, 8);
    }
    assert(b@.subrange(pos as int, at as int) =~= c.enc());
    assert forall|x: ContactInfo|
        pos <= b@.len() && #[trigger] is_prefix(b@.skip(pos as int), x.enc()) implies (same_contact_info(c, x)
            && at == pos + x.enc().len()) by {
        lemma_contact_info_prefix(b@.skip(pos as int), x);
        assert(x.sockets@.take(count as int) =~= x.sockets@);
    }
    Some((c, at))
}

/// The contact information of the earlier protocol: a fixed set of addresses.
#[derive(Debug)]
pub struct LegacyContactInfo {
    pub id: Pubkey,
    pub gossip: SocketAddress,
    pub tvu: SocketAddress,
    pub tvu_quic: SocketAddress,
    pub serve_repair_quic: SocketAddress,
    pub tpu: SocketAddress,
    pub tpu_forwards: SocketAddress,
    pub tpu_vote: SocketAddress,
    pub rpc: SocketAddress,
    pub rpc_pubsub: SocketAddress,
    pub serve_repair: SocketAddress,
    pub wallclock: u64,
    pub shred_version: u16,
}

impl LegacyContactInfo {
    /// The wire form.
    pub open spec fn enc(&self) -> Seq<u8> {
        self.id@ + enc_socket(self.gossip) + enc_socket(self.tvu) + enc_socket(self.tvu_quic)
            + enc_socket(self.serve_repair_quic) + enc_socket(self.tpu) + enc_socket(
            self.tpu_forwards,
        ) + enc_socket(self.tpu_vote) + enc_socket(self.rpc) + enc_socket(self.rpc_pubsub)
            + enc_socket(self.serve_repair) + enc_u64(self.wallclock) + enc_u16(self.shred_version)
    }

    /// The node's key.
    pub fn pubkey(&self) -> (r: &Pubkey)
        ensures
            *r == self.id,
    {
        &self.id
    }

    /// Appends the wire form.
    pub fn encode(&self, out: &mut Vec<u8>)
        ensures
            final(out)@ == old(out)@ + self.enc(),
    {
        put_raw(out, self.id.as_slice());
        put_socket(out, self.gossip);
        put_socket(out, self.tvu);
        put_socket(out, self.tvu_quic);
        put_socket(out, self.serve_repair_quic);
        put_socket(out, self.tpu);
        put_socket(out, self.tpu_forwards);
        put_socket(out, self.tpu_vote);
        put_socket(out, self.rpc);
        put_socket(out, self.rpc_pubsub);
        put_socket(out, self.serve_repair);
        put_u64(out, self.wallclock);
        put_u16(out, self.shred_version);
        assert(out@ =~= old(out)@ + self.enc());
    }
}

/// The filter of a pull request, carried as its encoded bytes and never read here.
#[derive(Debug)]
pub struct DataFilter {
    pub payload: Vec<u8>,
}

impl DataFilter {
    /// The wire form.
    pub open spec fn enc(&self) -> Seq<u8> {
        enc_bytes(self.payload@)
    }

    /// Appends the wire form.
    pub fn encode(&self, out: &mut Vec<u8>)
        ensures
            final(out)@ == old(out)@ + self.enc(),
    {
        put_bytes(out, &self.payload);
    }
}

impl Default for DataFilter {
    /// An empty filter.
    fn default() -> (r: DataFilter)
        ensures
            r.payload@.len() == 0,
    {
        DataFilter { payload: Vec::new() }
    }
}

} // verus!
