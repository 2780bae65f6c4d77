//! Building a pull request: the node's own contact information, signed, with
//! the filter of what it already holds.

use vstd::prelude::*;
use crate::contact_info::{ContactInfo, DataFilter, read_contact_info_at, same_contact_info};
use crate::reader::{
    lemma_le_bytes_injective, lemma_le_round_trip, lemma_pow256_values, read_array64_at,
    read_bytes_at, read_u32_at,
};
use crate::wire::{enc_bytes, is_prefix, lemma_le_bytes_len};
use crate::crypto::{Identity, Signature, ed25519_signature, signature_valid};
use crate::gossip_data::{GossipData, GossipValue};
use crate::protocol::{Protocol, message_tag};
use crate::reader::le_value;
use crate::wire::{enc_u32, le_bytes};

verus! {

/// Why a pull request could not be built.
#[derive(Debug)]
pub enum PushMessagesErrors {
    NoSocketEntry,
    SerializeFailed,
}

/// `bytes` are a pull request carrying `filter` and `contact_info`, with
/// `signature`, which is `keypair`'s signature of the record and verifies
/// under its public key.
pub open spec fn is_pull_request(
    bytes: Seq<u8>,
    contact_info: ContactInfo,
    filter: DataFilter,
    keypair: Identity,
    signature: Signature,
) -> bool {
    let value = GossipValue { signature, data: GossipData::ContactInfo(contact_info) };
    &&& bytes == Protocol::PullRequest(filter, value).enc()
    &&& signature@ == ed25519_signature(keypair.key_pair_bytes(), value.data.enc())
    &&& signature_valid(signature@, keypair.public_key()@, value.data.enc())
}

/// A pull request carrying `contact_info` and `filter`, signed with
/// `keypair`, in its wire form. Fails where the contact information lists no
/// socket address.
pub fn create_pull_request_message(
    contact_info: ContactInfo,
    filter: DataFilter,
    keypair: &Identity,
) -> (r: Result<Vec<u8>, PushMessagesErrors>)
    ensures
        r is Err <==> contact_info.sockets@.len() == 0,
        r matches Err(e) ==> e is NoSocketEntry,
        r matches Ok(bytes) ==> exists|signature: Signature|
            #![trigger is_pull_request(bytes@, contact_info, filter, *keypair, signature)]
            is_pull_request(bytes@, contact_info, filter, *keypair, signature),
{
    if contact_info.sockets().len() == 0 {
        return Err(PushMessagesErrors::NoSocketEntry);
    }
    let signed_data = GossipValue::new_signed(GossipData::ContactInfo(contact_info), keypair);
    let ghost signature = signed_data.signature;
    let protocol = Protocol::PullRequest(filter, signed_data);
    let message = protocol.to_bytes();
    let r: Result<Vec<u8>, PushMessagesErrors> = Ok(message);
    assert(r matches Ok(bytes) ==> is_pull_request(
        bytes@,
        contact_info,
        filter,
        *keypair,
        signature,
    ));
    r
}

/// `b` is, exactly, a pull request carrying `f` and the contact record `v`.
pub open spec fn encodes_pull_request(b: Seq<u8>, f: DataFilter, v: GossipValue) -> bool {
    v.data is ContactInfo && b == Protocol::PullRequest(f, v).enc()
}

/// The contact record that an envelope holds.
pub open spec fn contact_of(v: GossipValue) -> ContactInfo {
    match v.data {
        GossipData::ContactInfo(c) => c,
        _ => arbitrary(),
    }
}

/// Two pull requests with the same fields, compared by their views.
pub open spec fn same_pull_request(f1: DataFilter, v1: GossipValue, f2: DataFilter, v2: GossipValue) -> bool {
    &&& f1.payload@ == f2.payload@
    &&& v1.signature@ == v2.signature@
    &&& v1.data is ContactInfo
    &&& v2.data is ContactInfo
    &&& same_contact_info(contact_of(v1), contact_of(v2))
}

/// Where the parts of a pull request stand in its wire form.
pub proof fn lemma_pull_request_layout(b: Seq<u8>, f: DataFilter, v: GossipValue)
    requires
        encodes_pull_request(b, f, v),
    ensures
        b.take(4) == enc_u32(0),
        is_prefix(b.skip(4), enc_bytes(f.payload@)),
        b.subrange(12 + f.payload@.len() as int, 76 + f.payload@.len() as int) == v.signature@,
        b.subrange(76 + f.payload@.len() as int, 80 + f.payload@.len() as int) == enc_u32(11),
        is_prefix(b.skip(80 + f.payload@.len() as int), contact_of(v).enc()),
        b.len() == 80 + f.payload@.len() as int + contact_of(v).enc().len(),
{
    let c = contact_of(v);
    let n = f.payload@.len() as int;
    lemma_pow256_values();
    lemma_le_round_trip(0, 4);
    lemma_le_round_trip(11, 4);
    lemma_le_bytes_len(f.payload@.len(), 8);
    assert(enc_bytes(f.payload@).len() == 8 + n);
    assert(b =~= enc_u32(0) + enc_bytes(f.payload@) + v.signature@ + enc_u32(11) + c.enc());
    assert(b.take(4) =~= enc_u32(0));
    assert(b.skip(4).take(8 + n) =~= enc_bytes(f.payload@));
    assert(b.subrange(12 + n, 76 + n) =~= v.signature@);
    assert(b.subrange(76 + n, 80 + n) =~= enc_u32(11));
    assert(b.skip(80 + n).take(c.enc().len() as int) =~= c.enc());
}

/// Reads a pull request that carries contact information. Whatever it
/// returns encodes back to exactly `b`, and every such pull request is read
/// back, field for field.
pub fn read_pull_request(b: &[u8]) -> (r: Option<(DataFilter, GossipValue)>)
    ensures
        r matches Some((f, v)) ==> encodes_pull_request(b@, f, v),
        forall|f: DataFilter, v: GossipValue|
            #[trigger] encodes_pull_request(b@, f, v) ==> (r matches Some((f2, v2))
                && same_pull_request(f2, v2, f, v)),
{
    let blen = b.len();
    proof {
        lemma_pow256_values();
    }
    let (tag, off0) = match read_u32_at(b, 0) {
        Some(x) => x,
        None => {
            assert forall|f: DataFilter, v: GossipValue| #[trigger]
                encodes_pull_request(b@, f, v) implies false by {
                lemma_pull_request_layout(b@, f, v);
            }
            return None;
        },
    };
    if tag != 0 {
        assert forall|f: DataFilter, v: GossipValue| #[trigger]
            encodes_pull_request(b@, f, v) implies false by {
            lemma_pull_request_layout(b@, f, v);
            assert(b@.take(4) =~= b@.subrange(0, 4));
            lemma_le_bytes_injective(tag as nat, 0, 4);
        }
        return None;
    }
    assert(b@.skip(0) =~= b@);
    let (payload, off1) = match read_bytes_at(b, off0) {
        Some(x) => x,
        None => {
            assert forall|f: DataFilter, v: GossipValue| #[trigger]
                encodes_pull_request(b@, f, v) implies false by {
                lemma_pull_request_layout(b@, f, v);
            }
            return None;
        },
    };
    assert forall|f: DataFilter, v: GossipValue| #[trigger]
        encodes_pull_request(b@, f, v) implies payload@ == f.payload@ && off1 == 12 + f.payload@.len() as int by {
        lemma_pull_request_layout(b@, f, v);
    }
    let (signature, off2) = match read_array64_at(b, off1) {
        Some(x) => x,
        None => {
            assert forall|f: DataFilter, v: GossipValue| #[trigger]
                encodes_pull_request(b@, f, v) implies false by {
                lemma_pull_request_layout(b@, f, v);
            }
            return None;
        },
    };
    let (kind, off3) = match read_u32_at(b, off2) {
        Some(x) => x,
        None => {
            assert forall|f: DataFilter, v: GossipValue| #[trigger]
                encodes_pull_request(b@, f, v) implies false by {
                lemma_pull_request_layout(b@, f, v);
            }
            return None;
        },
    };
    if kind != 11 {
        assert forall|f: DataFilter, v: GossipValue| #[trigger]
            encodes_pull_request(b@, f, v) implies false by {
            lemma_pull_request_layout(b@, f, v);
            lemma_le_bytes_injective(kind as nat, 11, 4);
        }
        return None;
    }
    let (info, off4) = match read_contact_info_at(b, off3) {
        Some(x) => x,
        None => {
            assert forall|f: DataFilter, v: GossipValue| #[trigger]
                encodes_pull_request(b@, f, v) implies false by {
                lemma_pull_request_layout(b@, f, v);
            }
            return None;
        },
    };
    if off4 != b.len() {
        assert forall|f: DataFilter, v: GossipValue| #[trigger]
            encodes_pull_request(b@, f, v) implies false by {
            lemma_pull_request_layout(b@, f, v);
        }
        return None;
    }
    let filter = DataFilter { payload };
    let value = GossipValue { signature, data: GossipData::ContactInfo(info) };
    assert(b@ =~= b@.subrange(0, off0 as int) + b@.subrange(off0 as int, off1 as int) + b@.subrange(
        off1 as int,
        off2 as int,
    ) + b@.subrange(off2 as int, off3 as int) + b@.subrange(off3 as int, off4 as int));
    assert(b@ =~= Protocol::PullRequest(filter, value).enc());
    assert forall|f: DataFilter, v: GossipValue| #[trigger]
        encodes_pull_request(b@, f, v) implies same_pull_request(filter, value, f, v) by {
        lemma_pull_request_layout(b@, f, v);
        assert(signature@ =~= v.signature@);
    }
    Some((filter, value))
}

/// A pull request built by `create_pull_request_message` reads back: its
/// first four bytes give variant index 0, it is exactly the wire form of its
/// filter and envelope (so `read_pull_request` returns them, field for field),
/// and what is read back verifies where the contact information names the
/// signing key as its origin.
pub proof fn lemma_pull_request_reads_back(
    bytes: Seq<u8>,
    contact_info: ContactInfo,
    filter: DataFilter,
    keypair: Identity,
    signature: Signature,
    read_filter: DataFilter,
    read_value: GossipValue,
)
    requires
        is_pull_request(bytes, contact_info, filter, keypair, signature),
        contact_info.pubkey == keypair.public_key(),
        same_pull_request(
            read_filter,
            read_value,
            filter,
            GossipValue { signature, data: GossipData::ContactInfo(contact_info) },
        ),
    ensures
        message_tag(bytes) == Some(0nat),
        encodes_pull_request(
            bytes,
            filter,
            GossipValue { signature, data: GossipData::ContactInfo(contact_info) },
        ),
        read_value.is_verified(),
{
    let head = enc_u32(0);
    assert(head =~= seq![0u8, 0, 0, 0]) by {
        reveal_with_fuel(le_bytes, 5);
    }
    assert(bytes.take(4) =~= head);
    assert(le_value(head) == 0) by {
        reveal_with_fuel(le_value, 5);
        assert(head.drop_first() =~= seq![0u8, 0, 0]);
        assert(head.drop_first().drop_first() =~= seq![0u8, 0]);
        assert(head.drop_first().drop_first().drop_first() =~= seq![0u8]);
        assert(head.drop_first().drop_first().drop_first().drop_first() =~= Seq::<u8>::empty());
    }
    let c = contact_of(read_value);
    assert(c.enc() =~= contact_info.enc());
    assert(read_value.data.enc() =~= GossipData::ContactInfo(contact_info).enc());
}

} // verus!
