use dubstep_gossip::contact_info::{ContactInfo, DataFilter};
use dubstep_gossip::crypto::{verify_signature, Identity};
use dubstep_gossip::gossip_data::{GossipData, GossipValue};
use dubstep_gossip::protocol::Protocol;
use dubstep_gossip::pull_request::{create_pull_request_message, read_pull_request, PushMessagesErrors};

#[test]
fn test_create_pull_request_with_no_gossip_addres() {
    let keypair = Identity::new();
    let contact_info = ContactInfo::default();
    let filter = DataFilter::default();

    let pull_request = create_pull_request_message(contact_info, filter, &keypair);

    assert!(pull_request.is_err())
}

#[test]
fn no_socket_gives_no_socket_entry() {
    let keypair = Identity::new();
    let r = create_pull_request_message(ContactInfo::default(), DataFilter::default(), &keypair);
    assert!(matches!(r, Err(PushMessagesErrors::NoSocketEntry)));
}

#[test]
fn test_create_pull_request() {
    let keypair = Identity::new();
    // 0.0.0.0:8100, as an IPv4-mapped address.
    let gossip = (0xffff_0000_0000u128, 8100u16);
    let contact_info = ContactInfo::new(
        keypair.pubkey(),
        solana_sdk::timing::timestamp(),
        0,
        gossip,
    );
    let filter = DataFilter::default();

    let pull_request = create_pull_request_message(contact_info, filter, &keypair);

    assert!(pull_request.is_ok())
}

#[test]
fn pull_request_bytes_carry_a_verifiable_envelope() {
    let keypair = Identity::new();
    let gossip = (0xffff_7f00_0001u128, 8001u16);
    let info = ContactInfo::new(keypair.pubkey(), 77, 5, gossip);
    let filter = DataFilter { payload: vec![0xaa, 0xbb] };
    let bytes = create_pull_request_message(info, filter, &keypair).expect("pull request");

    assert_eq!(&bytes[0..4], &[0, 0, 0, 0]);
    assert_eq!(&bytes[4..12], &[2, 0, 0, 0, 0, 0, 0, 0]);
    assert_eq!(&bytes[12..14], &[0xaa, 0xbb]);
    let mut signature = [0u8; 64];
    signature.copy_from_slice(&bytes[14..78]);
    let data = &bytes[78..];

    let mut expected = vec![11u8, 0, 0, 0];
    expected.extend_from_slice(&keypair.pubkey());
    expected.extend_from_slice(&77u64.to_le_bytes());
    expected.extend_from_slice(&5u16.to_le_bytes());
    expected.extend_from_slice(&1u64.to_le_bytes());
    expected.extend_from_slice(&[0, 0, 0, 0, 127, 0, 0, 1, 0x41, 0x1f]);
    assert_eq!(data, &expected[..]);

    assert!(verify_signature(&signature, &keypair.pubkey(), data));
    let value = GossipValue {
        signature,
        data: GossipData::ContactInfo(ContactInfo::new(keypair.pubkey(), 77, 5, gossip)),
    };
    assert!(value.verify());
}

#[test]
fn pull_request_reads_back_and_verifies() {
    let keypair = Identity::new();
    let v6 = (0x2001_0db8_0000_0000_0000_0000_0000_0001u128, 9000u16);
    let v4 = (0xffff_0a00_0001u128, 8001u16);
    let mut info = ContactInfo::new(keypair.pubkey(), 1234, 7, v4);
    info.sockets.push(v6);
    let filter = DataFilter { payload: vec![1, 2, 3] };
    let bytes = create_pull_request_message(info, filter, &keypair).expect("pull request");

    let (filter, value) = read_pull_request(&bytes).expect("reads back");
    assert_eq!(filter.payload, vec![1, 2, 3]);
    assert!(value.verify());
    match &value.data {
        GossipData::ContactInfo(c) => {
            assert_eq!(c.pubkey, keypair.pubkey());
            assert_eq!(c.wallclock, 1234);
            assert_eq!(c.shred_version, 7);
            assert_eq!(c.sockets, vec![v4, v6]);
        }
        _ => panic!("not contact information"),
    }
    assert_eq!(Protocol::PullRequest(filter, value).to_bytes(), bytes);
}

#[test]
fn malformed_pull_requests_read_as_nothing() {
    let keypair = Identity::new();
    let info = ContactInfo::new(keypair.pubkey(), 1, 0, (0xffff_0a00_0001u128, 1));
    let bytes = create_pull_request_message(info, DataFilter::default(), &keypair).expect("ok");
    assert!(read_pull_request(&bytes).is_some());

    let mut trailing = bytes.clone();
    trailing.push(0);
    assert!(read_pull_request(&trailing).is_none());

    assert!(read_pull_request(&bytes[..bytes.len() - 1]).is_none());

    let mut other_kind = bytes.clone();
    other_kind[0] = 1;
    assert!(read_pull_request(&other_kind).is_none());

    let mut bad_family = bytes.clone();
    let family_at = bytes.len() - 10;
    bad_family[family_at] = 2;
    assert!(read_pull_request(&bad_family).is_none());

    assert!(read_pull_request(&[]).is_none());
}
