use dubstep_gossip::crypto::{verify_signature, Identity};
use dubstep_gossip::lru_model::Node;
use dubstep_gossip::ping_pong::{Ping, PingCache, Pong};
use dubstep_gossip::process_message::process_datagram;
use dubstep_gossip::protocol::{read_challenge, Challenge, Protocol};

#[test]
fn ping_message_reads_back() {
    let keypair = Identity::new();
    let ping = Ping::new([4u8; 32], &keypair).expect("ping");
    let signature = ping.signature;
    let bytes = Protocol::PingMessage(ping).to_bytes();
    assert_eq!(bytes.len(), 132);
    assert_eq!(&bytes[0..4], &[4, 0, 0, 0]);
    match read_challenge(&bytes) {
        Some(Challenge::Ping(p)) => {
            assert_eq!(p.from, keypair.pubkey());
            assert_eq!(p.token, [4u8; 32]);
            assert_eq!(p.signature, signature);
        }
        _ => panic!("not a ping"),
    }
}

#[test]
fn other_or_short_messages_read_as_nothing() {
    assert!(read_challenge(&Protocol::PullResponse.to_bytes()).is_none());
    assert!(read_challenge(&Protocol::PruneMessage.to_bytes()).is_none());
    assert!(read_challenge(&[4, 0, 0, 0, 1, 2]).is_none());
    let mut unknown = vec![9u8, 0, 0, 0];
    unknown.extend_from_slice(&[0u8; 128]);
    assert!(read_challenge(&unknown).is_none());
    assert!(read_challenge(&[]).is_none());
}

#[test]
fn unit_messages_are_their_index() {
    assert_eq!(Protocol::PullResponse.to_bytes(), vec![1, 0, 0, 0]);
    assert_eq!(Protocol::PushMessage.to_bytes(), vec![2, 0, 0, 0]);
    assert_eq!(Protocol::PruneMessage.to_bytes(), vec![3, 0, 0, 0]);
}

#[test]
fn ping_datagram_gets_a_pong_reply() {
    let me = Identity::new();
    let peer = Identity::new();
    let mut cache = PingCache::new(10_000, 1_000, 4);
    let ping = Ping::new([3u8; 32], &peer).expect("ping");
    let bytes = Protocol::PingMessage(ping).to_bytes();
    let reply = process_datagram(&mut cache, &me, &bytes, (1, 2), 0).expect("reply");
    assert_eq!(&reply[0..4], &[5, 0, 0, 0]);
    match read_challenge(&reply) {
        Some(Challenge::Pong(p)) => {
            assert_eq!(p.from, me.pubkey());
            let expected = Pong::new(&Ping::new([3u8; 32], &peer).expect("ping"), &me).expect("pong");
            assert_eq!(p.hash, expected.hash);
            assert!(verify_signature(&p.signature, &me.pubkey(), &p.hash));
        }
        _ => panic!("not a pong"),
    }
}

#[test]
fn pong_datagram_closes_the_challenge() {
    let me = Identity::new();
    let peer = Identity::new();
    let mut cache = PingCache::new(10_000, 1_000, 4);
    let address = (0xffff_0a00_0001u128, 8001u16);
    let n: Node = (peer.pubkey(), address);
    let ping = cache.check(0, n, || Ping::rand(&me).ok()).1.expect("challenge");
    let pong_bytes = Protocol::PongMessage(Pong::new(&ping, &peer).expect("pong")).to_bytes();

    assert!(process_datagram(&mut cache, &me, &pong_bytes, (7, 7), 10).is_none());
    assert!(!cache.check(20, n, || None).0);

    assert!(process_datagram(&mut cache, &me, &pong_bytes, address, 30).is_none());
    assert!(cache.check(40, n, || None).0);
}

#[test]
fn garbage_is_dropped() {
    let me = Identity::new();
    let mut cache = PingCache::new(10_000, 1_000, 4);
    assert!(process_datagram(&mut cache, &me, &[0xff; 10], (1, 1), 0).is_none());
    assert!(process_datagram(&mut cache, &me, &[1, 0, 0, 0], (1, 1), 0).is_none());
}

#[test]
fn reply_is_a_pong_message() {
    let me = Identity::new();
    let ping = Ping::new([1u8; 32], &me).expect("ping");
    let bytes = ping.reply(&me).ok().expect("reply");
    assert_eq!(bytes.len(), 132);
    assert_eq!(&bytes[0..4], &[5, 0, 0, 0]);
}
