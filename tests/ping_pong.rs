use dubstep_gossip::crypto::{hash_concat, serialize_token, verify_signature, Identity};
use dubstep_gossip::lru_model::Node;
use dubstep_gossip::ping_pong::{Ping, PingCache, Pong, PING_PONG_HASH_PREFIX};

fn node(key: u8, port: u16) -> Node {
    ([key; 32], (0xffff_7f00_0001u128, port))
}

fn ping_token(token: [u8; 32], keypair: &Identity) -> Ping {
    Ping::new(token, keypair).expect("ping")
}

#[test]
fn test_create_pong() {
    let keypair = Identity::new();
    let ping = Ping::rand(&keypair).expect("Failed to create ping");

    let expected_hash =
        solana_sdk::hash::hashv(&[&PING_PONG_HASH_PREFIX[..], &ping.token[..]]).to_bytes();
    let pong = Pong::new(&ping, &keypair).expect("Failed to create pong");

    assert_eq!(
        pong.hash, expected_hash,
        "The pong hash does not match the expected hash"
    );
}

#[test]
fn pong_signature_verifies_under_responder_key() {
    let keypair = Identity::new();
    let ping = Ping::rand(&keypair).expect("ping");
    let pong = Pong::new(&ping, &keypair).expect("pong");
    assert_eq!(*pong.from(), keypair.pubkey());
    assert!(verify_signature(&pong.signature, &keypair.pubkey(), &pong.hash));
    let other = Identity::new();
    assert!(!verify_signature(&pong.signature, &other.pubkey(), &pong.hash));
}

#[test]
fn ping_signature_covers_token() {
    let keypair = Identity::new();
    let ping = ping_token([7u8; 32], &keypair);
    assert_eq!(ping.from, keypair.pubkey());
    assert_eq!(ping.token, [7u8; 32]);
    assert!(verify_signature(&ping.signature, &keypair.pubkey(), &[7u8; 32]));
    assert!(!verify_signature(&ping.signature, &keypair.pubkey(), &[8u8; 32]));
}

#[test]
fn prefix_is_ascii_domain_tag() {
    assert_eq!(&PING_PONG_HASH_PREFIX[..], "SOLANA_PING_PONG".as_bytes());
}

#[test]
fn hash_concat_is_sha256_of_both_parts() {
    let h = hash_concat(b"ab", b"c");
    let expected: [u8; 32] = [
        0xba, 0x78, 0x16, 0xbf, 0x8f, 0x01, 0xcf, 0xea, 0x41, 0x41, 0x40, 0xde, 0x5d, 0xae, 0x22,
        0x23, 0xb0, 0x03, 0x61, 0xa3, 0x96, 0x17, 0x7a, 0x9c, 0xb4, 0x10, 0xff, 0x61, 0xf2, 0x00,
        0x15, 0xad,
    ];
    assert_eq!(h, expected);
}

#[test]
fn token_serialises_as_its_bytes() {
    let mut token = [0u8; 32];
    for (i, b) in token.iter_mut().enumerate() {
        *b = i as u8;
    }
    let bytes = serialize_token(&token).expect("serialise");
    assert_eq!(bytes, token.to_vec());
}

#[test]
fn random_pings_differ() {
    let keypair = Identity::new();
    let a = Ping::rand(&keypair).expect("ping");
    let b = Ping::rand(&keypair).expect("ping");
    assert_ne!(a.token, b.token);
}

#[test]
fn unseen_node_is_challenged_then_rate_limited() {
    let keypair = Identity::new();
    let mut cache = PingCache::new(10_000, 1_000, 8);
    let n = node(1, 9000);
    let (trusted, ping) = cache.check(5_000, n, || Ping::rand(&keypair).ok());
    assert!(!trusted);
    assert!(ping.is_some());
    let (trusted, ping) = cache.check(5_500, n, || Ping::rand(&keypair).ok());
    assert!(!trusted);
    assert!(ping.is_none());
    let (trusted, ping) = cache.check(6_000, n, || Ping::rand(&keypair).ok());
    assert!(!trusted);
    assert!(ping.is_some());
}

#[test]
fn declining_factory_changes_nothing() {
    let keypair = Identity::new();
    let mut cache = PingCache::new(10_000, 1_000, 8);
    let n = node(2, 9000);
    let (trusted, ping) = cache.check(5_000, n, || None);
    assert!(!trusted);
    assert!(ping.is_none());
    let (_, ping) = cache.check(5_001, n, || Ping::rand(&keypair).ok());
    assert!(ping.is_some());
}

#[test]
fn add_refuses_unknown_digest_and_other_socket() {
    let keypair = Identity::new();
    let peer = Identity::new();
    let mut cache = PingCache::new(10_000, 1_000, 8);
    let n: Node = (peer.pubkey(), (0xffff_0a00_0001u128, 8001));
    let (_, ping) = cache.check(100, n, || Ping::rand(&keypair).ok());
    let ping = ping.expect("challenge");

    let stray = Pong::new(&ping_token([9u8; 32], &keypair), &peer).expect("pong");
    assert!(!cache.add(&stray, n.1, 200));

    let pong = Pong::new(&ping, &peer).expect("pong");
    assert!(!cache.add(&pong, (0xffff_0a00_0001u128, 8002), 200));
    assert!(!cache.add(&pong, (0xffff_0a00_0002u128, 8001), 200));

    let impostor = Pong::new(&ping, &keypair).expect("pong");
    assert!(!cache.add(&impostor, n.1, 200));

    assert!(cache.add(&pong, n.1, 200));
}

#[test]
fn answered_node_is_trusted_and_pong_is_single_use() {
    let keypair = Identity::new();
    let peer = Identity::new();
    let mut cache = PingCache::new(8_000, 1_000, 8);
    let n: Node = (peer.pubkey(), (0xffff_0a00_0001u128, 8001));
    let (_, ping) = cache.check(100, n, || Ping::rand(&keypair).ok());
    let pong = Pong::new(&ping.expect("challenge"), &peer).expect("pong");
    assert!(cache.add(&pong, n.1, 200));
    assert!(!cache.add(&pong, n.1, 300));

    let (trusted, ping) = cache.check(700, n, || Ping::rand(&keypair).ok());
    assert!(trusted);
    assert!(ping.is_none());

    let (trusted, ping) = cache.check(1_300, n, || Ping::rand(&keypair).ok());
    assert!(trusted);
    assert!(ping.is_some());

    let (trusted, _) = cache.check(8_200, n, || None);
    assert!(trusted);
    let (trusted, _) = cache.check(8_201, n, || None);
    assert!(!trusted);
    let (trusted, _) = cache.check(8_202, n, || None);
    assert!(!trusted);
}

#[test]
fn time_going_backwards_counts_as_no_time() {
    let keypair = Identity::new();
    let mut cache = PingCache::new(8_000, 1_000, 8);
    let n = node(3, 1);
    let (_, ping) = cache.check(5_000, n, || Ping::rand(&keypair).ok());
    assert!(ping.is_some());
    let (_, ping) = cache.check(1_000, n, || Ping::rand(&keypair).ok());
    assert!(ping.is_none());
}

#[test]
fn evicted_node_is_treated_as_unseen() {
    let keypair = Identity::new();
    let mut cache = PingCache::new(10_000, 1_000, 2);
    let a = node(1, 1);
    let b = node(2, 2);
    let c = node(3, 3);
    assert!(cache.check(0, a, || Ping::rand(&keypair).ok()).1.is_some());
    assert!(cache.check(0, b, || Ping::rand(&keypair).ok()).1.is_some());
    assert!(cache.check(10, a, || Ping::rand(&keypair).ok()).1.is_none());
    assert!(cache.check(10, c, || Ping::rand(&keypair).ok()).1.is_some());
    // `a` was the least recently used entry of the full cache, so its record left.
    assert!(cache.check(20, a, || Ping::rand(&keypair).ok()).1.is_some());
    assert!(cache.check(20, c, || Ping::rand(&keypair).ok()).1.is_none());
}

#[test]
fn evicted_challenge_cannot_be_answered() {
    let keypair = Identity::new();
    let peer = Identity::new();
    let mut cache = PingCache::new(10_000, 1_000, 1);
    let a: Node = (peer.pubkey(), (0xffff_0a00_0001u128, 1));
    let b = node(4, 4);
    let ping = cache.check(0, a, || Ping::rand(&keypair).ok()).1.expect("challenge");
    assert!(cache.check(0, b, || Ping::rand(&keypair).ok()).1.is_some());
    let pong = Pong::new(&ping, &peer).expect("pong");
    assert!(!cache.add(&pong, a.1, 5));
}

#[test]
fn pongs_depend_only_on_token_and_key() {
    let keypair = Identity::new();
    let a = Identity::new();
    let b = Identity::new();
    let p1 = ping_token([5u8; 32], &a);
    let p2 = ping_token([5u8; 32], &b);
    let q1 = Pong::new(&p1, &keypair).expect("pong");
    let q2 = Pong::new(&p2, &keypair).expect("pong");
    assert_eq!(q1.from, q2.from);
    assert_eq!(q1.hash, q2.hash);
    assert_eq!(q1.signature, q2.signature);
}

#[test]
fn ping_signature_is_the_key_pairs_signature_of_the_token() {
    let keypair = Identity::new();
    let ping = ping_token([6u8; 32], &keypair);
    assert_eq!(ping.signature, keypair.sign_message(&[6u8; 32]));
}
