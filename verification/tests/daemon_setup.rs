//! Startup registration over real sockets: every bound listener ends up in
//! the registry, under consecutive tokens, registered with the multiplexer.

use mio::net::{TcpListener, UdpSocket};

use port_knocking::connections::{ConnectionManager, ConnectionType};
use port_knocking::daemon::set_up_sockets;

#[test]
fn test_set_up_sockets_registers_all_listeners() {
    let mut knock_listeners: Vec<(UdpSocket, u16)> = Vec::new();
    let mut knock_ports: Vec<u16> = Vec::new();
    for _ in 0..3 {
        let socket = UdpSocket::bind(&"127.0.0.1:0".parse().unwrap()).unwrap();
        let port = socket.local_addr().unwrap().port();
        knock_listeners.push((socket, port));
        knock_ports.push(port);
    }
    let telnet_listener = TcpListener::bind(&"127.0.0.1:0".parse().unwrap()).unwrap();

    let mut manager = ConnectionManager::new().unwrap();
    assert!(knock_listeners.len() < usize::MAX - 1 - manager.tokens_used());
    set_up_sockets(&mut manager, knock_listeners, telnet_listener).unwrap();

    assert_eq!(manager.tokens_used(), 4);
    for (token, expected_port) in knock_ports.iter().enumerate() {
        match manager.get_connection(token) {
            Some(ConnectionType::UdpKnockListener(socket, port)) => {
                assert_eq!(port, expected_port);
                assert_eq!(socket.local_addr().unwrap().port(), *expected_port);
            }
            _ => panic!("expected a knock listener under token {}", token),
        }
    }
    assert!(matches!(
        manager.get_connection(3),
        Some(ConnectionType::TcpTelnetListener(_))
    ));
    assert!(manager.get_connection(4).is_none());

    // Startup resources are permanent, but removal still works and closes
    // them out of the table.
    manager.remove_connection(0).unwrap();
    assert!(manager.get_connection(0).is_none());
    assert!(matches!(
        manager.get_connection(1),
        Some(ConnectionType::UdpKnockListener(_, _))
    ));
}
