use rong_server::address::NetAddr;
use rong_server::codec::{decode_server_packet, encode_client_packet, DecodeError};
use rong_server::connection::ConnectionManager;
use rong_server::model::{ClientMessage, GameState, NetworkPacket, ServerMessage};

fn peer(port: u16) -> NetAddr {
    NetAddr::v4(172, 16, 0, 2, port)
}

#[test]
fn clients_are_known_once_in_order_of_first_contact() {
    let mut connections = ConnectionManager::new();
    assert!(connections.client_addresses().is_empty());
    connections.update_client(peer(1), 0);
    connections.update_client(peer(2), 1);
    connections.update_client(peer(1), 2);
    assert_eq!(connections.client_addresses(), vec![peer(1), peer(2)]);
}

#[test]
fn silent_clients_are_forgotten() {
    let mut connections = ConnectionManager::new();
    connections.update_client(peer(1), 0);
    connections.update_client(peer(2), 1_000);
    connections.update_client(peer(3), 2_000);
    connections.update_client(peer(1), 3_000);
    connections.remove_inactive_clients(3_000, 2_000);
    assert_eq!(connections.client_addresses(), vec![peer(1), peer(2), peer(3)]);
    connections.remove_inactive_clients(3_001, 2_000);
    assert_eq!(connections.client_addresses(), vec![peer(1), peer(3)]);
    connections.remove_inactive_clients(10_000, 2_000);
    assert!(connections.client_addresses().is_empty());
}

#[test]
fn sequence_numbers_count_up_and_start_over() {
    let mut connections = ConnectionManager::new();
    assert_eq!(connections.get_sequence(), 1);
    assert_eq!(connections.get_sequence(), 2);
    let out = connections.send_to(&ServerMessage::Ack(String::new()), peer(1), 99);
    let packet = decode_server_packet(&out.bytes).unwrap();
    assert_eq!(packet.get_sequence(), 3);
    assert_eq!(packet.get_timestamp(), 99);
    assert_eq!(out.targets, vec![peer(1)]);
}

#[test]
fn a_received_datagram_is_decoded_and_its_sender_noted() {
    let mut connections = ConnectionManager::new();
    let bytes = encode_client_packet(&NetworkPacket::new(5, 6, ClientMessage::Connect()));
    let (packet, sender) = connections.receive(&bytes, peer(4), 10).unwrap();
    assert_eq!(sender, peer(4));
    assert_eq!(packet.get_sequence(), 5);
    assert!(matches!(packet.get_payload(), ClientMessage::Connect()));
    assert_eq!(connections.client_addresses(), vec![peer(4)]);
}

#[test]
fn a_corrupt_datagram_is_discarded_but_its_sender_noted() {
    let mut connections = ConnectionManager::new();
    assert_eq!(connections.receive(&[1, 2, 3], peer(4), 10).unwrap_err(), DecodeError::Truncated);
    let mut bytes = encode_client_packet(&NetworkPacket::new(5, 6, ClientMessage::Connect()));
    bytes[12] = 200;
    assert_eq!(connections.receive(&bytes, peer(5), 10).unwrap_err(), DecodeError::UnknownVariant);
    assert_eq!(connections.client_addresses(), vec![peer(4), peer(5)]);
    connections.remove_inactive_clients(10_000, 100);
    assert!(connections.client_addresses().is_empty());
}

#[test]
fn a_broadcast_goes_to_every_known_client_in_one_envelope() {
    let mut connections = ConnectionManager::new();
    let none = connections.broadcast(&ServerMessage::GameStateChange(GameState::GameOver), 1);
    assert!(none.targets.is_empty());
    connections.update_client(peer(1), 0);
    connections.update_client(peer(2), 0);
    let out = connections.broadcast(&ServerMessage::GameStateChange(GameState::GameStarted), 1_234);
    assert_eq!(out.targets, vec![peer(1), peer(2)]);
    let packet = decode_server_packet(&out.bytes).unwrap();
    assert_eq!(packet.get_sequence(), 2);
    assert_eq!(packet.get_timestamp(), 1_234);
    assert!(matches!(
        packet.get_payload(),
        ServerMessage::GameStateChange(GameState::GameStarted)
    ));
}
