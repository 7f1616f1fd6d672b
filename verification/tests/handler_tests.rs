use rong_server::address::NetAddr;
use rong_server::error::{ClientError, ServerError};
use rong_server::handler::PacketHandler;
use rong_server::model::{
    ClientMessage, GameState, Movement, MovementPacket, NetworkPacket, PlayerId, ServerMessage,
};
use rong_server::player::{ROW_PLAYER1, ROW_PLAYER2, START_X};
use rong_server::registry::PlayerManager;
use rong_server::state::State;

fn from(port: u16) -> NetAddr {
    NetAddr::v4(192, 168, 0, 7, port)
}

fn handler() -> PacketHandler {
    PacketHandler::new(State::new(PlayerManager::new(), 0))
}

fn send(h: &mut PacketHandler, message: ClientMessage, port: u16, now: u64) -> ServerMessage {
    let reply = h
        .handle_packet(NetworkPacket::new(41, 42, message), from(port), now)
        .expect("every message is answered");
    assert_eq!(reply.get_sequence(), 41);
    assert_eq!(reply.get_timestamp(), 42);
    reply.get_payload().clone()
}

fn full_handler() -> PacketHandler {
    let mut h = handler();
    send(&mut h, ClientMessage::Connect(), 1, 0);
    send(&mut h, ClientMessage::Connect(), 2, 0);
    h
}

#[test]
fn two_connects_fill_the_seats_in_order_and_start_the_match() {
    let mut h = handler();
    assert!(matches!(
        send(&mut h, ClientMessage::Connect(), 1, 10),
        ServerMessage::PlayerJoined(PlayerId::Player1)
    ));
    assert_eq!(h.game_state.get_state(), GameState::WaitingForPlayers);
    assert!(matches!(
        send(&mut h, ClientMessage::Connect(), 2, 20),
        ServerMessage::PlayerJoined(PlayerId::Player2)
    ));
    assert_eq!(h.game_state.get_state(), GameState::GameStarted);
    assert_eq!(h.game_state.players().player_address(PlayerId::Player1).unwrap(), from(1));
    assert_eq!(h.game_state.players().player_address(PlayerId::Player2).unwrap(), from(2));
    assert_eq!(
        h.game_state.players().get_positions(),
        vec![
            (PlayerId::Player1, (START_X, ROW_PLAYER1)),
            (PlayerId::Player2, (START_X, ROW_PLAYER2)),
        ]
    );
    assert_eq!(h.game_state.get_scores().get_payload(), (0, 0));
}

#[test]
fn a_third_connect_is_refused_and_changes_no_seat() {
    let mut h = full_handler();
    h.game_state.move_player(PlayerId::Player1, Movement::Up);
    let before = h.game_state.players().get_players();
    assert!(matches!(
        send(&mut h, ClientMessage::Connect(), 3, 30),
        ServerMessage::Error(ServerError::GameFull)
    ));
    let after = h.game_state.players().get_players();
    assert_eq!(after.len(), 2);
    for (a, b) in before.iter().zip(after.iter()) {
        assert_eq!(a.get_id(), b.get_id());
        assert_eq!(a.get_addr(), b.get_addr());
        assert_eq!(a.get_position(), b.get_position());
        assert_eq!(a.get_velocity(), b.get_velocity());
    }
    assert_eq!(h.game_state.get_state(), GameState::GameStarted);
}

#[test]
fn a_freed_seat_is_given_to_the_next_to_connect() {
    let mut h = full_handler();
    assert!(matches!(
        send(&mut h, ClientMessage::Disconnect(PlayerId::Player1), 1, 5),
        ServerMessage::PlayerLeft(PlayerId::Player1)
    ));
    assert_eq!(h.game_state.get_state(), GameState::WaitingForPlayers);
    assert!(matches!(
        send(&mut h, ClientMessage::Connect(), 9, 6),
        ServerMessage::PlayerJoined(PlayerId::Player1)
    ));
    assert_eq!(h.game_state.get_state(), GameState::GameStarted);
    assert_eq!(h.game_state.players().player_address(PlayerId::Player1).unwrap(), from(9));
}

#[test]
fn disconnect_before_connect_is_an_error_answer() {
    let mut h = handler();
    assert!(matches!(
        send(&mut h, ClientMessage::Disconnect(PlayerId::Player2), 1, 5),
        ServerMessage::Error(ServerError::PlayerNotFound)
    ));
    assert_eq!(h.game_state.get_player_count(), 0);
    assert_eq!(h.game_state.get_state(), GameState::WaitingForPlayers);
}

#[test]
fn movement_commands_steer_the_named_paddle() {
    let mut h = full_handler();
    let up = ClientMessage::MovementCommand(MovementPacket::new(PlayerId::Player2, Movement::Up));
    match send(&mut h, up, 2, 5) {
        ServerMessage::Ack(s) => assert_eq!(s, "Movement received"),
        other => panic!("unexpected {:?}", other),
    }
    assert_eq!(h.game_state.players().get_player(PlayerId::Player2).unwrap().get_velocity(), 20_972);
    assert_eq!(h.game_state.players().get_player(PlayerId::Player1).unwrap().get_velocity(), 0);
    let down = ClientMessage::MovementCommand(MovementPacket::new(PlayerId::Player2, Movement::Down));
    send(&mut h, down.clone(), 2, 6);
    send(&mut h, down, 2, 7);
    assert_eq!(h.game_state.players().get_player(PlayerId::Player2).unwrap().get_velocity(), -20_972);
    let stop = ClientMessage::MovementCommand(MovementPacket::new(PlayerId::Player2, Movement::Stop));
    send(&mut h, stop, 2, 8);
    assert_eq!(h.game_state.players().get_player(PlayerId::Player2).unwrap().get_velocity(), 0);
}

#[test]
fn the_same_movement_command_twice_takes_two_equal_steps() {
    let mut h = full_handler();
    let up = ClientMessage::MovementCommand(MovementPacket::new(PlayerId::Player1, Movement::Up));
    let start = h.game_state.players().get_player(PlayerId::Player1).unwrap();
    send(&mut h, up.clone(), 1, 5);
    let once = h.game_state.players().get_player(PlayerId::Player1).unwrap();
    send(&mut h, up, 1, 5);
    let twice = h.game_state.players().get_player(PlayerId::Player1).unwrap();
    assert_eq!(once.get_velocity() - start.get_velocity(), 20_972);
    assert_eq!(twice.get_velocity() - once.get_velocity(), 20_972);
    assert_eq!(twice.get_position(), start.get_position());
    assert_eq!(h.game_state.get_scores().get_payload(), (0, 0));
}

#[test]
fn a_movement_command_for_an_empty_seat_is_an_error_answer() {
    let mut h = handler();
    send(&mut h, ClientMessage::Connect(), 1, 0);
    let up = ClientMessage::MovementCommand(MovementPacket::new(PlayerId::Player2, Movement::Up));
    assert!(matches!(send(&mut h, up, 1, 5), ServerMessage::Error(ServerError::PlayerNotFound)));
    assert_eq!(h.game_state.players().get_player(PlayerId::Player1).unwrap().get_velocity(), 0);
}

#[test]
fn other_messages_are_acknowledged() {
    let mut h = full_handler();
    match send(&mut h, ClientMessage::ConnectionAck(), 1, 5) {
        ServerMessage::Ack(s) => assert_eq!(s, "Connection acknowledged"),
        other => panic!("unexpected {:?}", other),
    }
    match send(&mut h, ClientMessage::Ack("got it".to_string()), 1, 5) {
        ServerMessage::Ack(s) => assert_eq!(s, "Acknowledgement received"),
        other => panic!("unexpected {:?}", other),
    }
    match send(&mut h, ClientMessage::Error(ClientError::Io(String::new())), 1, 5) {
        ServerMessage::Ack(s) => assert_eq!(s, "Error report received"),
        other => panic!("unexpected {:?}", other),
    }
    assert_eq!(h.game_state.get_state(), GameState::GameStarted);
    assert_eq!(h.game_state.get_player_count(), 2);
}

#[test]
fn any_message_keeps_its_sender_alive() {
    let mut h = full_handler();
    send(&mut h, ClientMessage::ConnectionAck(), 1, 4_000);
    assert_eq!(h.game_state.remove_inactive_players(6_000, 5_000), 1);
    assert!(h.game_state.players().get_player(PlayerId::Player1).is_some());
    assert!(h.game_state.players().get_player(PlayerId::Player2).is_none());
}
