use scs::Cli;
use scs::Mode;
use scs::config::Config;
use scs::keys::derive_peer_id;
use scs::peer::ScsPeer;
use scs::peer::remote_peer_id_polyfill;
use scs::peer::store_peer_decision;

const VALID_PEER_ID: &str = "12D3KooWDpJ7As7BWAwRMfu1VU2WCqNjvq387JEYKDBj4kx6nXTN";

#[test]
fn peer_from_tuple() {
    let peer = ScsPeer::new_seen_now(
        "/ip4/127.0.0.0/tcp/5555".to_string(),
        "foo".to_string(),
        VALID_PEER_ID.to_string(),
    );
    assert_eq!(peer.peer_id().unwrap(), VALID_PEER_ID);
    assert_eq!(peer.name().as_str(), "foo");
    assert!(!peer.last_seen().is_empty());
}

#[test]
fn wrong_peer_id() {
    let peer = ScsPeer::from_parts(
        "/ip4/jki/oo/tcp/990".to_string(),
        "foo".to_string(),
        "now".to_string(),
        "hi".to_string(),
        Some(1),
    );
    let peer_id = peer.peer_id();
    assert!(peer_id.is_err());
}

#[test]
fn unknown_nickname() {
    let opts = Cli {
        secret: None,
        message: None,
        file: None,
        mode: Mode::Send,
        remote_peer_id: None,
        name: Some("bob".to_string()),
        port: None,
        debug: 0,
        config: None,
    };
    let r = remote_peer_id_polyfill(&opts, None);
    assert!(r.is_err());
    assert!(r.unwrap_err().message().contains("Cannot find peer with name"));
}

#[test]
fn lookup_resolves_by_name() {
    let opts = Cli {
        secret: None,
        message: None,
        file: None,
        mode: Mode::Send,
        remote_peer_id: None,
        name: Some("kasali".to_string()),
        port: None,
        debug: 0,
        config: None,
    };
    let peer = ScsPeer::new_seen_now(
        "/ip4/127.0.0.1/udp/38404/quic-v1".to_string(),
        "kasali".to_string(),
        VALID_PEER_ID.to_string(),
    );
    let r = remote_peer_id_polyfill(&opts, Some(peer));
    assert_eq!(r.unwrap(), VALID_PEER_ID);
}

#[test]
fn known_peer_is_not_stored_again() {
    let r = store_peer_decision(
        true,
        true,
        "foo".to_string(),
        Some("/ip4/1.2.3.4/tcp/1".to_string()),
        VALID_PEER_ID.to_string(),
    );
    assert!(r.is_none());
    let r = store_peer_decision(
        false,
        false,
        "foo".to_string(),
        Some("/ip4/1.2.3.4/tcp/1".to_string()),
        VALID_PEER_ID.to_string(),
    );
    assert!(r.is_none());
}

#[test]
fn confirmed_peer_is_stored() {
    let r = store_peer_decision(
        false,
        true,
        "kasali".to_string(),
        Some("/ip4/127.0.0.1/udp/38404/quic-v1".to_string()),
        VALID_PEER_ID.to_string(),
    )
    .unwrap();
    assert_eq!(r.name(), "kasali");
    assert_eq!(r.addrs(), "/ip4/127.0.0.1/udp/38404/quic-v1");
    assert_eq!(r.peer_id().unwrap(), VALID_PEER_ID);
}

#[test]
fn random_seed_is_32_alphanumeric() {
    let seed = scs::keys::random_seed();
    assert_eq!(seed.len(), 32);
    assert!(seed.chars().all(|c| c.is_ascii_alphanumeric()));
    let other = scs::keys::random_seed();
    assert_eq!(other.len(), 32);
}

fn seeded_config(seed: &str) -> Config {
    Config::from_parts(
        None,
        None,
        None,
        0,
        0,
        "default".to_string(),
        None,
        None,
        seed.to_string(),
    )
}

#[test]
fn peer_id_deterministic_in_seed() {
    let a = derive_peer_id(&seeded_config("greyhounds"));
    let b = derive_peer_id(&seeded_config("greyhounds"));
    let c = derive_peer_id(&seeded_config("other seed"));
    assert_eq!(a, b);
    assert_ne!(a, c);
    assert!(a.starts_with("12D3Koo"));
    assert_ne!(a, "greyhounds");
}

#[test]
fn non_ascii_seed_derives_identity() {
    let a = derive_peer_id(&seeded_config("h\u{e9}llo, clef secr\u{e8}te"));
    let b = derive_peer_id(&seeded_config("h\u{e9}llo, clef secr\u{e8}te"));
    assert_eq!(a, b);
    assert!(a.starts_with("12D3Koo"));
}

#[test]
fn seed_key_bytes_pads_and_truncates() {
    let key = seeded_config("ab").seed_key_bytes();
    assert_eq!(key.len(), 32);
    assert_eq!(key[0], b'a');
    assert_eq!(key[1], b'b');
    for i in 2..32 {
        assert_eq!(key[i], 0x20);
    }
    let long = seeded_config("h\u{e9}llo 0123456789 0123456789 0123456789").seed_key_bytes();
    assert_eq!(long.len(), 32);
    assert_eq!(&long[..2], "h\u{e9}".as_bytes()[..2].to_vec().as_slice());
}
