use mio::net::UdpSocket;

use port_knocking::connections::{
    ConnectionManager, ConnectionType, InterestKind, TriggerMode,
};
use port_knocking::state::{KnockResult, PortKnockingState};

#[test]
fn test_get_connection_returns_none_when_no_connections_added() {
    let connection_manager = ConnectionManager::new().unwrap();
    assert!(connection_manager.get_connection(0).is_none());
    assert!(connection_manager.get_connection(1).is_none());
}

#[test]
fn test_create_token_sequence() {
    let mut connection_manager = ConnectionManager::new().unwrap();
    assert_eq!(connection_manager.create_token(), 0);
    assert_eq!(connection_manager.create_token(), 1);
    assert_eq!(connection_manager.create_token(), 2);
    assert_eq!(connection_manager.create_token(), 3);
}

#[test]
fn test_tokens_used_counts_allocations() {
    let mut connection_manager = ConnectionManager::new().unwrap();
    assert_eq!(connection_manager.tokens_used(), 0);
    let _ = connection_manager.create_token();
    let _ = connection_manager.create_token();
    assert_eq!(connection_manager.tokens_used(), 2);
}

#[test]
fn test_retrevial_of_connection_by_token() {
    const TOKEN: usize = 12;
    const PORT: u16 = 60213;

    let mut connection_manager = ConnectionManager::new().unwrap();
    // Tokens come from the registry itself: draw until the wanted one is out.
    let mut token = connection_manager.create_token();
    while token < TOKEN {
        token = connection_manager.create_token();
    }
    let socket = UdpSocket::bind(&"127.0.0.1:0".parse().unwrap()).unwrap();
    connection_manager
        .add_connection(
            TOKEN,
            ConnectionType::UdpKnockListener(socket, PORT),
            InterestKind::Readable,
            TriggerMode::Level,
        )
        .unwrap();
    assert!(connection_manager.get_connection(TOKEN).is_some());
}

#[test]
fn test_add_then_get_returns_same_resource() {
    const PORT: u16 = 60213;
    let mut connection_manager = ConnectionManager::new().unwrap();
    let socket = UdpSocket::bind(&"127.0.0.1:0".parse().unwrap()).unwrap();

    let token = connection_manager.create_token();
    connection_manager
        .add_connection(
            token,
            ConnectionType::UdpKnockListener(socket, PORT),
            InterestKind::Readable,
            TriggerMode::Level,
        )
        .unwrap();
    match connection_manager.get_connection(token) {
        Some(ConnectionType::UdpKnockListener(_, port)) => assert_eq!(*port, PORT),
        _ => panic!("expected the added knock listener back"),
    }

    connection_manager.remove_connection(token).unwrap();
    assert!(connection_manager.get_connection(token).is_none());
}

#[test]
fn test_remove_unknown_token_is_noop() {
    let mut connection_manager = ConnectionManager::new().unwrap();
    assert!(connection_manager.remove_connection(7).is_ok());
    assert!(connection_manager.get_connection(7).is_none());
}

/// The daemon's accept-time decisions, without the sockets: a client that has
/// not knocked is unknown and would be dropped silently; a client that has
/// knocked the policy in order is authorized, and its record is consumed by
/// the reset that promotion performs.
#[test]
fn test_session_authorization_decisions() {
    let addr: u128 = 42;
    let mut state = PortKnockingState::new(vec![4002, 4841, 4219]);

    // Connecting without knocking: no record, silent rejection.
    assert_eq!(state.check(addr), KnockResult::Unknown);

    // Knock the policy, in order, then connect: authorized.
    state.knock(addr, 4002);
    state.knock(addr, 4841);
    state.knock(addr, 4219);
    assert_eq!(state.check(addr), KnockResult::Success);

    // Promotion resets the record, so a second connection is rejected.
    state.reset(addr);
    assert_eq!(state.check(addr), KnockResult::Unknown);
}
