use scs::config::Config;
use scs::security::AddrProtocol;
use scs::security::IdentifyEvent;
use scs::security::Ipv4Address;
use scs::security::is_ip_blacklisted;
use scs::security::is_ip_whitelisted;

fn generate_event(addrs: &Vec<Ipv4Address>, event_type: &str) -> IdentifyEvent {
    let heads = addrs.iter().map(|a| AddrProtocol::Ip4(*a)).collect::<Vec<_>>();
    match event_type {
        "received" => IdentifyEvent::Received {
            listen_heads: heads,
            observed_addr: "/ip4/186.0.0.2/tcp/43675".to_string(),
        },
        _ => IdentifyEvent::Sent,
    }
}

fn generate_config(addr: Ipv4Address) -> Config {
    Config::from_parts(
        None,
        None,
        None,
        5555,
        1,
        "default".to_string(),
        Some(vec![addr]),
        Some(vec![addr]),
        "seed".to_string(),
    )
}

fn advertised() -> Vec<Ipv4Address> {
    vec![
        Ipv4Address::new(127, 0, 0, 1),
        Ipv4Address::new(142, 132, 198, 26),
        Ipv4Address::new(189, 173, 43, 88),
    ]
}

#[test]
fn blacklisted_ip() {
    let event = generate_event(&advertised(), "received");
    let config = generate_config(Ipv4Address::new(142, 132, 198, 26));
    assert!(is_ip_blacklisted(&event, &config));
}

#[test]
fn passthrough_ip() {
    let event = generate_event(&advertised(), "received");
    let config = generate_config(Ipv4Address::new(142, 132, 198, 10));
    assert!(!is_ip_blacklisted(&event, &config));
}

#[test]
fn sent_event() {
    let config = generate_config(Ipv4Address::new(142, 132, 198, 26));
    let event = generate_event(&advertised(), "sent");
    assert!(!is_ip_blacklisted(&event, &config));
}

#[test]
fn whitelisted_ip() {
    let config = generate_config(Ipv4Address::new(142, 132, 198, 26));
    let event = generate_event(&advertised(), "received");
    assert!(!is_ip_whitelisted(&event, &config));
}

#[test]
fn passthrough_whitelist_ip() {
    let config = generate_config(Ipv4Address::new(142, 132, 198, 26));
    let event = generate_event(&advertised(), "sent");
    assert!(is_ip_whitelisted(&event, &config));
}

#[test]
fn full_whitelist_passes() {
    let allow = advertised();
    let config = Config::from_parts(
        None,
        None,
        None,
        0,
        0,
        "default".to_string(),
        Some(allow.clone()),
        None,
        "seed".to_string(),
    );
    let event = generate_event(&allow, "received");
    assert!(is_ip_whitelisted(&event, &config));
}

#[test]
fn non_ip4_head_fails_allow_but_not_deny() {
    let heads = vec![AddrProtocol::Other];
    let event = IdentifyEvent::Received {
        listen_heads: heads,
        observed_addr: "/dns4/example/tcp/1".to_string(),
    };
    let config = generate_config(Ipv4Address::new(1, 2, 3, 4));
    assert!(!is_ip_whitelisted(&event, &config));
    assert!(!is_ip_blacklisted(&event, &config));
}

#[test]
fn absent_policy_passes() {
    let config = Config::from_parts(
        None,
        None,
        None,
        0,
        0,
        "default".to_string(),
        None,
        None,
        "seed".to_string(),
    );
    let event = generate_event(&advertised(), "received");
    assert!(is_ip_whitelisted(&event, &config));
    assert!(!is_ip_blacklisted(&event, &config));
}
