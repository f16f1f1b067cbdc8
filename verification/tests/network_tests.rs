use scs::Mode;
use scs::config::Config;
use scs::item::Item;
use scs::item::ItemResponse;
use scs::item::ItemType;
use scs::item::Status;
use scs::network::Action;
use scs::network::ConnectionDetails;
use scs::network::ObservePhase;
use scs::network::RoleStep;
use scs::network::Session;
use scs::network::SessionEvent;
use scs::network::barrier_event_is_fatal;
use scs::network::quic_listen_addr;
use scs::network::relay_address;
use scs::network::request::BatchError;
use scs::network::request::get_items_to_be_sent;
use scs::network::role_step;
use scs::network::tcp_listen_addr;
use scs::security::AddrProtocol;
use scs::security::IdentifyEvent;
use scs::security::Ipv4Address;

#[test]
fn new_connection_details() {
    let details = ConnectionDetails::new();
    assert_eq!(details.id(), None);
}

#[test]
fn connection_id() {
    let mut details = ConnectionDetails::new();
    details.save_id(0);
    assert_eq!(details.id(), Some(0));
}

fn plain_config(
    whitelists: Option<Vec<Ipv4Address>>,
    blacklists: Option<Vec<Ipv4Address>>,
) -> Config {
    Config::from_parts(
        None,
        Some(vec!["hi".to_string()]),
        None,
        0,
        0,
        "default".to_string(),
        whitelists,
        blacklists,
        "seed".to_string(),
    )
}

#[test]
fn empty_batch() {
    let config = Config::from_parts(
        None,
        None,
        None,
        0,
        0,
        "default".to_string(),
        None,
        None,
        "seed".to_string(),
    );
    let r = get_items_to_be_sent(&config, Vec::new());
    assert_eq!(r, Err(BatchError::Empty));
    assert!(BatchError::Empty.message().contains("Pass in a secret with the `-s` flag"));

    let all_empty = Config::from_parts(
        Some(Vec::new()),
        Some(Vec::new()),
        None,
        0,
        0,
        "default".to_string(),
        None,
        None,
        "seed".to_string(),
    );
    assert_eq!(get_items_to_be_sent(&all_empty, Vec::new()), Err(BatchError::Empty));
}

#[test]
fn batch_order_secrets_messages_files() {
    let config = Config::from_parts(
        Some(vec![
            scs::item::Secret { key: "k".to_string(), value: "v".to_string() },
        ]),
        Some(vec!["m1".to_string(), "m2".to_string()]),
        Some(vec!["/tmp/f.txt".to_string()]),
        0,
        0,
        "default".to_string(),
        None,
        None,
        "seed".to_string(),
    );
    let file_item = Item::new_file(scs::item::item_file::ItemFile::from_parts(
        "f.txt".to_string(),
        "/tmp/f.txt".to_string(),
        b"x".to_vec(),
        "txt".to_string(),
    ));
    let items = get_items_to_be_sent(&config, vec![file_item]).unwrap();
    assert_eq!(items.len(), 4);
    assert_eq!(items[0].item_type(), ItemType::Secret);
    assert_eq!(items[1].item_type(), ItemType::Message);
    assert_eq!(items[2].item_type(), ItemType::Message);
    assert_eq!(items[3].item_type(), ItemType::File);
}

#[test]
fn observe_phase_flags() {
    let mut phase = ObservePhase::new();
    assert!(!phase.done());
    let a = phase.step(&SessionEvent::Ping);
    assert_eq!(a, Action::Ignore);
    assert!(!phase.done());
    let a = phase.step(&SessionEvent::Identify { event: IdentifyEvent::Sent });
    assert_eq!(a, Action::Ignore);
    assert!(!phase.done());
    let a = phase.step(&SessionEvent::Identify {
        event: IdentifyEvent::Received {
            listen_heads: Vec::new(),
            observed_addr: "/ip4/9.9.9.9/tcp/4".to_string(),
        },
    });
    assert_eq!(a, Action::AddExternalAddress { address: "/ip4/9.9.9.9/tcp/4".to_string() });
    assert!(phase.done());
}

#[test]
fn barrier_only_accepts_listen_addresses() {
    assert!(!barrier_event_is_fatal(&SessionEvent::NewListenAddr {
        address: "/ip4/0.0.0.0/tcp/1".to_string(),
    }));
    assert!(barrier_event_is_fatal(&SessionEvent::Dialing));
}

#[test]
fn role_addresses() {
    let relay = relay_address();
    let target = "12D3KooWDpJ7As7BWAwRMfu1VU2WCqNjvq387JEYKDBj4kx6nXTN".to_string();
    match role_step(Mode::Send, relay, &Some(target.clone())) {
        RoleStep::DialCircuit { address } => {
            assert_eq!(address, format!("{relay}/p2p-circuit/p2p/{target}"));
        }
        other => panic!("expected a circuit dial, got {other:?}"),
    }
    match role_step(Mode::Receive, relay, &None) {
        RoleStep::ListenCircuit { address } => {
            assert_eq!(address, format!("{relay}/p2p-circuit"));
        }
        other => panic!("expected a circuit listen, got {other:?}"),
    }
}

#[test]
fn listen_addresses() {
    assert_eq!(quic_listen_addr(0), "/ip4/0.0.0.0/udp/0/quic-v1");
    assert_eq!(tcp_listen_addr(5555), "/ip4/0.0.0.0/tcp/5555");
}

#[test]
fn incoming_connection_is_remembered() {
    let mut session = Session::new(Mode::Receive, plain_config(None, None), None);
    let a = session.handle_event(SessionEvent::IncomingConnection { connection_id: 7 });
    assert_eq!(a, Action::Ignore);
    let a = session.handle_event(SessionEvent::Identify {
        event: IdentifyEvent::Received {
            listen_heads: vec![AddrProtocol::Ip4(Ipv4Address::new(127, 0, 0, 1))],
            observed_addr: "/ip4/127.0.0.1/tcp/1".to_string(),
        },
    });
    assert_eq!(a, Action::Ignore);
}

#[test]
fn deny_listed_peer_closes_connection() {
    let config = plain_config(None, Some(vec![Ipv4Address::new(127, 0, 0, 1)]));
    let mut session = Session::new(Mode::Receive, config, None);
    session.handle_event(SessionEvent::IncomingConnection { connection_id: 3 });
    let a = session.handle_event(SessionEvent::Identify {
        event: IdentifyEvent::Received {
            listen_heads: vec![AddrProtocol::Ip4(Ipv4Address::new(127, 0, 0, 1))],
            observed_addr: "/ip4/127.0.0.1/tcp/1".to_string(),
        },
    });
    assert_eq!(a, Action::CloseAndExit { connection_id: 3 });
}

#[test]
fn passing_identify_without_connection_is_ignored() {
    let mut session = Session::new(Mode::Receive, plain_config(None, None), None);
    let a = session.handle_event(SessionEvent::Identify { event: IdentifyEvent::Sent });
    assert_eq!(a, Action::Ignore);
    let a = session.handle_event(SessionEvent::Identify {
        event: IdentifyEvent::Received {
            listen_heads: vec![AddrProtocol::Ip4(Ipv4Address::new(10, 0, 0, 1))],
            observed_addr: "/ip4/10.0.0.1/tcp/1".to_string(),
        },
    });
    assert_eq!(a, Action::Ignore);
}

#[test]
fn closing_identify_without_connection_is_fatal() {
    let config = plain_config(None, Some(vec![Ipv4Address::new(127, 0, 0, 1)]));
    let mut session = Session::new(Mode::Receive, config, None);
    let a = session.handle_event(SessionEvent::Identify {
        event: IdentifyEvent::Received {
            listen_heads: vec![AddrProtocol::Ip4(Ipv4Address::new(127, 0, 0, 1))],
            observed_addr: "/ip4/127.0.0.1/tcp/1".to_string(),
        },
    });
    assert_eq!(a, Action::Fatal);
}

#[test]
fn reservation_outside_receive_role_is_fatal() {
    let mut receiver = Session::new(Mode::Receive, plain_config(None, None), None);
    assert_eq!(receiver.handle_event(SessionEvent::RelayReservationAccepted), Action::Ignore);
    let mut sender = Session::new(Mode::Send, plain_config(None, None), None);
    assert_eq!(sender.handle_event(SessionEvent::RelayReservationAccepted), Action::Fatal);
}

#[test]
fn sender_dispatches_batch_once() {
    let batch = vec![Item::new("hi".to_string(), ItemType::Message).unwrap()];
    let mut session = Session::new(Mode::Send, plain_config(None, None), Some(batch.clone()));
    let a = session.handle_event(SessionEvent::ConnectionEstablished {
        peer_id: "peer".to_string(),
        connection_id: 1,
    });
    assert_eq!(a, Action::SendBatch { peer_id: "peer".to_string(), items: batch });
    let a = session.handle_event(SessionEvent::ConnectionEstablished {
        peer_id: "peer".to_string(),
        connection_id: 2,
    });
    assert_eq!(a, Action::Ignore);
}

#[test]
fn receiver_delivers_request() {
    let mut session = Session::new(Mode::Receive, plain_config(None, None), None);
    let items = vec![Item::new("hi".to_string(), ItemType::Message).unwrap()];
    let a = session.handle_event(SessionEvent::RequestReceived {
        peer_id: "peer".to_string(),
        items: items.clone(),
    });
    assert_eq!(a, Action::DeliverBatch { peer_id: "peer".to_string(), items });
}

#[test]
fn sender_notes_response() {
    let mut session = Session::new(Mode::Send, plain_config(None, None), None);
    let a = session.handle_event(SessionEvent::ResponseReceived {
        peer_id: "peer".to_string(),
        response: ItemResponse {
            status: Status::Succes,
            no_of_success: 3,
            no_of_fails: 0,
            err: None,
        },
    });
    assert_eq!(
        a,
        Action::NoteResponse { peer_id: "peer".to_string(), no_of_success: 3, no_of_fails: 0 }
    );
}
