use ethersync_web::connection_service::{
    ConnectionCommand, ConnectionEvent, ConnectionService, Delivery,
};
use ethersync_web::framing::decode_frame;
use ethersync_web::identity::{Passphrase, PeerId, SecretAddress, KEY_LEN};
use ethersync_web::node_service::{NodeAction, NodeCommand, NodeEvent, NodeService};
use ethersync_web::peer_message::{
    encode_peer_message, CursorState, EphemeralMessage, PeerMessage, Position, RelativePath,
};

fn peer(byte: u8) -> PeerId {
    PeerId::from_bytes(vec![byte; KEY_LEN]).unwrap()
}

#[test]
fn spawned_node_exposes_info_only_once_bound() {
    let mut node = NodeService::spawn();
    assert!(node.node_info().is_none());
    node.endpoint_bound(peer(0xaa), 7);
    let info = node.node_info().unwrap();
    assert_eq!(info.node_id.len(), 2 * KEY_LEN);
    assert_eq!(info.my_passphrase.len(), 2 * KEY_LEN);
    assert_eq!(info.secret_key.len(), 2 * KEY_LEN);
    assert_eq!(node.events, vec![NodeEvent::Spawned { timestamp: 7 }]);
}

#[test]
fn node_accepts_exact_passphrase_and_nothing_else() {
    // A node spawns; a dialer writes 32 bytes on a fresh stream.  The
    // exact passphrase authenticates; one flipped byte does not.
    let node = NodeService::spawn();
    let exact = node.my_passphrase.as_bytes().clone();
    assert!(node.check_inbound_auth(&exact));
    let mut flipped = exact.clone();
    flipped[0] ^= 1;
    assert!(!node.check_inbound_auth(&flipped));
    let mut flipped_late = exact.clone();
    flipped_late[KEY_LEN - 1] ^= 1;
    assert!(!node.check_inbound_auth(&flipped_late));
    assert!(!node.check_inbound_auth(&exact[..31].to_vec()));
}

#[test]
fn rejected_dialer_leaves_no_peer_behind() {
    let node = NodeService::spawn();
    let mut connections = ConnectionService::new();
    let mut wrong = node.my_passphrase.as_bytes().clone();
    wrong[5] ^= 0x10;
    if node.check_inbound_auth(&wrong) {
        connections.handle_new_connection(peer(1), 0);
    }
    assert!(connections.connected_peers.is_empty());
}

#[test]
fn node_commands_become_actions() {
    let address = SecretAddress {
        peer_node_id: peer(1),
        peer_passphrase: Passphrase::from_bytes(vec![2u8; KEY_LEN]).unwrap(),
    };
    let action = NodeService::handle_command(NodeCommand::ConnectByAddress {
        secret_address: Box::new(address),
    });
    match action {
        NodeAction::Dial { secret_address } => {
            assert_eq!(secret_address.peer_node_id.as_bytes(), &vec![1u8; KEY_LEN]);
        }
        _ => panic!("expected a dial action"),
    }
    let action = NodeService::handle_command(NodeCommand::ConnectByJoinCode {
        join_code: String::from("7-alpha-beta"),
    });
    match action {
        NodeAction::ResolveJoinCode { join_code } => assert_eq!(join_code, "7-alpha-beta"),
        _ => panic!("expected a resolve action"),
    }
}

#[test]
fn connection_registry_adds_and_removes_peers() {
    let mut service = ConnectionService::new();
    service.handle_new_connection(peer(1), 1);
    service.handle_new_connection(peer(2), 2);
    service.handle_new_connection(peer(1), 3);
    assert_eq!(service.connected_peers.len(), 3);
    service.remove_peer(&peer(1), 5);
    assert_eq!(service.connected_peers.len(), 1);
    assert_eq!(service.connected_peers[0].as_bytes(), &vec![2u8; KEY_LEN]);
    service.remove_peer(&peer(9), 6);
    assert_eq!(service.connected_peers.len(), 1);
    assert_eq!(
        service.events,
        vec![
            ConnectionEvent::PeerConnected { timestamp: 1 },
            ConnectionEvent::PeerConnected { timestamp: 2 },
            ConnectionEvent::PeerConnected { timestamp: 3 },
            ConnectionEvent::PeerDisconnected { timestamp: 5 },
            ConnectionEvent::PeerDisconnected { timestamp: 6 },
        ]
    );
}

#[test]
fn connection_errors_are_logged_and_change_nothing_else() {
    let mut service = ConnectionService::new();
    service.handle_new_connection(peer(1), 1);
    service.record_error(2);
    assert_eq!(service.connected_peers.len(), 1);
    assert_eq!(service.events.last(), Some(&ConnectionEvent::Error { timestamp: 2 }));
}

#[test]
fn one_message_reaches_three_peers_exactly_once() {
    let mut service = ConnectionService::new();
    service.handle_new_connection(peer(1), 0);
    service.handle_new_connection(peer(2), 0);
    service.handle_new_connection(peer(3), 0);
    let message_buf = vec![0xdeu8, 0xad, 0xbe, 0xef];
    let deliveries = service
        .handle_command(ConnectionCommand::SendMessage { message_buf: message_buf.clone() }, 7)
        .unwrap();
    assert_eq!(deliveries.len(), 3);
    for (i, delivery) in deliveries.iter().enumerate() {
        let Delivery { peer: to, frame } = delivery;
        assert_eq!(to.as_bytes(), &vec![(i + 1) as u8; KEY_LEN]);
        // Each peer's receive side decodes the frame to exactly the
        // original sync bytes, once.
        let (payload, consumed) = decode_frame(frame, 0).unwrap();
        assert_eq!(consumed, frame.len());
        let forwarded = ConnectionService::handle_incoming_payload(&payload).unwrap();
        assert_eq!(forwarded, Some(message_buf.clone()));
    }
}

#[test]
fn ephemeral_payloads_are_understood_and_discarded() {
    let ephemeral = PeerMessage::Ephemeral(EphemeralMessage {
        cursor_id: String::from("c"),
        sequence_number: 1,
        cursor_state: CursorState {
            name: None,
            file_path: RelativePath(String::from("a.txt")),
            ranges: vec![ethersync_web::peer_message::Range {
                start: Position { line: 1, character: 2 },
                end: Position { line: 1, character: 3 },
            }],
        },
    });
    let payload = encode_peer_message(&ephemeral).unwrap();
    assert_eq!(ConnectionService::handle_incoming_payload(&payload).unwrap(), None);
}

#[test]
fn malformed_payloads_are_errors() {
    assert!(ConnectionService::handle_incoming_payload(&vec![9u8, 9, 9]).is_err());
    assert!(ConnectionService::handle_incoming_payload(&Vec::new()).is_err());
}
