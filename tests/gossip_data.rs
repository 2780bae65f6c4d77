use dubstep_gossip::contact_info::{put_socket, ContactInfo, LegacyContactInfo};
use dubstep_gossip::crypto::Identity;
use dubstep_gossip::gossip_data::{
    AccountsHashes, BitVec, CompressedSlots, DuplicateShred, EpochSlots, GossipData, GossipValue,
    NodeInstance, ShredType, SlotsOffsets, Uncompressed, Vote,
};

fn node_instance(from: [u8; 32]) -> GossipData {
    GossipData::NodeInstance(NodeInstance { from, wallclock: 1, timestamp: 2, token: 3 })
}

#[test]
fn signed_value_verifies() {
    let keypair = Identity::new();
    let value = GossipValue::new_signed(node_instance(keypair.pubkey()), &keypair);
    assert!(value.verify());
    assert_eq!(value.pubkey(), keypair.pubkey());
}

#[test]
fn changed_signature_or_data_or_origin_fails() {
    let keypair = Identity::new();
    let mut value = GossipValue::new_signed(node_instance(keypair.pubkey()), &keypair);
    value.signature[3] ^= 1;
    assert!(!value.verify());

    let mut value = GossipValue::new_signed(node_instance(keypair.pubkey()), &keypair);
    if let GossipData::NodeInstance(n) = &mut value.data {
        n.token = 4;
    }
    assert!(!value.verify());

    let other = Identity::new();
    let value = GossipValue::new_signed(node_instance(other.pubkey()), &keypair);
    assert!(!value.verify());
}

#[test]
fn signing_is_deterministic() {
    let keypair = Identity::new();
    let a = GossipValue::new_signed(node_instance(keypair.pubkey()), &keypair);
    let b = GossipValue::new_signed(node_instance(keypair.pubkey()), &keypair);
    assert_eq!(a.signature, b.signature);
}

#[test]
fn unsigned_value_does_not_verify() {
    let keypair = Identity::new();
    let mut value = GossipValue::new_signed(node_instance(keypair.pubkey()), &keypair);
    value.set_signature([0u8; 64]);
    assert_eq!(value.get_signature(), [0u8; 64]);
    assert!(!value.verify());
}

#[test]
fn node_instance_wire_form() {
    let bytes = node_instance([9u8; 32]).to_bytes();
    let mut expected = vec![8u8, 0, 0, 0];
    expected.extend_from_slice(&[9u8; 32]);
    expected.extend_from_slice(&1u64.to_le_bytes());
    expected.extend_from_slice(&2u64.to_le_bytes());
    expected.extend_from_slice(&3u64.to_le_bytes());
    assert_eq!(bytes, expected);
}

#[test]
fn vote_wire_form() {
    let data = GossipData::Vote(
        2,
        Vote { from: [1u8; 32], transaction: vec![5, 6], wallclock: 0x0102, slot: Some(9) },
    );
    let bytes = data.to_bytes();
    let mut expected = vec![1u8, 0, 0, 0, 2];
    expected.extend_from_slice(&[1u8; 32]);
    expected.extend_from_slice(&[5, 6]);
    expected.extend_from_slice(&[2, 1, 0, 0, 0, 0, 0, 0]);
    expected.extend_from_slice(&[1, 9, 0, 0, 0, 0, 0, 0, 0]);
    assert_eq!(bytes, expected);
}

#[test]
fn accounts_hashes_wire_form() {
    let data = GossipData::AccountsHashes(AccountsHashes {
        from: [0u8; 32],
        hashes: vec![(7, [3u8; 32])],
        wallclock: 1,
    });
    let bytes = data.to_bytes();
    let mut expected = vec![4u8, 0, 0, 0];
    expected.extend_from_slice(&[0u8; 32]);
    expected.extend_from_slice(&1u64.to_le_bytes());
    expected.extend_from_slice(&7u64.to_le_bytes());
    expected.extend_from_slice(&[3u8; 32]);
    expected.extend_from_slice(&1u64.to_le_bytes());
    assert_eq!(bytes, expected);
}

#[test]
fn epoch_slots_encodings_are_tagged() {
    let data = GossipData::EpochSlots(
        0,
        EpochSlots {
            from: [0u8; 32],
            slots: vec![CompressedSlots::Uncompressed(Uncompressed {
                first_slot: 1,
                num: 2,
                slots: BitVec { blocks: vec![3], len: 4 },
            })],
            wallclock: 5,
        },
    );
    let bytes = data.to_bytes();
    let mut expected = vec![5u8, 0, 0, 0, 0];
    expected.extend_from_slice(&[0u8; 32]);
    expected.extend_from_slice(&1u64.to_le_bytes());
    expected.extend_from_slice(&[1, 0, 0, 0]);
    expected.extend_from_slice(&1u64.to_le_bytes());
    expected.extend_from_slice(&2u64.to_le_bytes());
    expected.extend_from_slice(&1u64.to_le_bytes());
    expected.push(3);
    expected.extend_from_slice(&4u64.to_le_bytes());
    expected.extend_from_slice(&5u64.to_le_bytes());
    assert_eq!(bytes, expected);
}

#[test]
fn duplicate_shred_wire_form() {
    let data = GossipData::DuplicateShred(
        0x0304,
        DuplicateShred {
            from: [0u8; 32],
            wallclock: 1,
            slot: 2,
            unused: 0,
            unused_shred_type: ShredType::Code,
            num_chunks: 3,
            chunk_index: 1,
            chunk: vec![0xee],
        },
    );
    let bytes = data.to_bytes();
    let mut expected = vec![9u8, 0, 0, 0, 4, 3];
    expected.extend_from_slice(&[0u8; 32]);
    expected.extend_from_slice(&1u64.to_le_bytes());
    expected.extend_from_slice(&2u64.to_le_bytes());
    expected.extend_from_slice(&[0, 0, 0, 0, 1, 0, 0, 0, 3, 1]);
    expected.extend_from_slice(&1u64.to_le_bytes());
    expected.push(0xee);
    assert_eq!(bytes, expected);
}

#[test]
fn run_length_offsets_are_variant_zero() {
    let data = GossipData::RestartLastVotedForkSlots(
        dubstep_gossip::gossip_data::RestartLastVotedForkSlots {
            from: [0u8; 32],
            wallclock: 0,
            offsets: SlotsOffsets::RunLengthEncoding(vec![0x0102]),
            last_voted_slot: 0,
            last_voted_hash: [0u8; 32],
            shred_version: 0,
        },
    );
    let bytes = data.to_bytes();
    assert_eq!(&bytes[0..4], &[12, 0, 0, 0]);
    assert_eq!(&bytes[44..48], &[0, 0, 0, 0]);
    assert_eq!(&bytes[48..56], &1u64.to_le_bytes());
    assert_eq!(&bytes[56..58], &[2, 1]);
}

#[test]
fn origin_is_read_from_every_kind() {
    let key = [6u8; 32];
    let info = ContactInfo::new(key, 0, 0, (0xffff_0000_0000u128, 1));
    assert_eq!(GossipData::ContactInfo(info).pubkey(), key);
    let a = (0xffff_0000_0000u128, 1u16);
    let legacy = LegacyContactInfo {
        id: key,
        gossip: a,
        tvu: a,
        tvu_quic: a,
        serve_repair_quic: a,
        tpu: a,
        tpu_forwards: a,
        tpu_vote: a,
        rpc: a,
        rpc_pubsub: a,
        serve_repair: a,
        wallclock: 0,
        shred_version: 0,
    };
    assert_eq!(GossipData::LegacyContactInfo(legacy).pubkey(), key);
    assert_eq!(node_instance(key).pubkey(), key);
}

#[test]
fn socket_addresses_encode_by_family() {
    let mut out = Vec::new();
    put_socket(&mut out, (0xffff_7f00_0001u128, 8001));
    assert_eq!(out, vec![0, 0, 0, 0, 127, 0, 0, 1, 0x41, 0x1f]);
    let mut out = Vec::new();
    put_socket(&mut out, (1u128, 0x0102));
    let mut expected = vec![1u8, 0, 0, 0];
    expected.extend_from_slice(&[0u8; 15]);
    expected.push(1);
    expected.extend_from_slice(&[2, 1]);
    assert_eq!(out, expected);
}

#[test]
fn signature_is_over_the_record_alone() {
    let keypair = Identity::new();
    let data = node_instance(keypair.pubkey());
    let bytes = data.to_bytes();
    let value = GossipValue::new_signed(data, &keypair);
    assert_eq!(value.signature, keypair.sign_message(&bytes));
    assert_eq!(value.signable_data(), bytes);
}
