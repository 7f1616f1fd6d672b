use rong_server::address::NetAddr;
use rong_server::ball::{Ball, CENTER};
use rong_server::codec::{decode_server_packet, encode_client_packet};
use rong_server::connection::Outbound;
use rong_server::error::{GameError, ServerError};
use rong_server::fixed::ONE;
use rong_server::model::{
    ClientMessage, GameState, Movement, MovementPacket, NetworkPacket, PlayerId, ServerMessage,
};
use rong_server::player::Player;
use rong_server::registry::PlayerManager;
use rong_server::server::{GameServer, BROADCAST_INTERVAL_MS, TICK_RATE_MS};
use rong_server::state::State;

fn client(port: u16) -> NetAddr {
    NetAddr::v4(127, 0, 0, 1, port)
}

fn server() -> GameServer {
    GameServer::new(State::new(PlayerManager::new(), 0), 1_000)
}

fn datagram(sequence: u32, message: ClientMessage) -> Vec<u8> {
    encode_client_packet(&NetworkPacket::new(sequence, 0, message))
}

fn open(out: &Outbound) -> (u32, u64, ServerMessage) {
    let packet = decode_server_packet(&out.bytes).expect("the server sends what decodes");
    (packet.get_sequence(), packet.get_timestamp(), packet.get_payload().clone())
}

#[test]
fn test_basic_connection() {
    let mut server = server();
    let bytes = datagram(1, ClientMessage::Connect());
    let outs = server.on_datagram(&bytes, client(5000), 10);
    assert_eq!(outs.len(), 1);
    assert_eq!(outs[0].targets, vec![client(5000)]);
    match open(&outs[0]).2 {
        ServerMessage::PlayerJoined(player_id) => {
            assert!(
                player_id == PlayerId::Player1 || player_id == PlayerId::Player2,
                "Received invalid player ID"
            );
        }
        other => panic!("Expected PlayerJoined message, got {:?}", other),
    }
}

#[test]
fn test_game_start_and_state_update() {
    let mut server = server();
    let client1 = client(5001);
    let client2 = client(5002);

    // Add players
    server.packet_handler.game_state.add_player(PlayerId::Player1, client1, 0).unwrap();
    server.packet_handler.game_state.add_player(PlayerId::Player2, client2, 0).unwrap();

    // The first client is the one that listens
    server.connection_manager.update_client(client1, 0);
    let mut outs = Vec::new();

    // Start the game
    outs.extend(server.start_game(0).unwrap());

    // Update state to trigger broadcast
    outs.extend(server.tick(16));
    outs.extend(server.snapshot(16));

    let mut messages_received = 0;
    let mut game_started = false;
    let mut position_update = false;
    let mut score_update = false;
    for out in &outs {
        if !out.targets.contains(&client1) {
            continue;
        }
        let (_, _, message) = open(out);
        println!("Server sent message to {:?}: {:?}", client1, message);
        match message {
            ServerMessage::GameStateChange(GameState::GameStarted) => {
                game_started = true;
                messages_received += 1;
            }
            ServerMessage::PositionUpdate(_) => {
                position_update = true;
                messages_received += 1;
            }
            ServerMessage::ScoreUpdate(_) => {
                score_update = true;
                messages_received += 1;
            }
            _ => {}
        }
    }

    assert!(game_started, "GameStateChange message for game start was not received");
    assert!(position_update, "PositionUpdate message was not received");
    assert!(score_update, "ScoreUpdate message was not received");

    assert_eq!(messages_received, 3, "Did not receive all expected messages");
}

#[test]
fn starting_the_game_needs_a_waiting_match_with_two_players() {
    let mut server = server();
    match server.start_game(0) {
        Err(GameError::Io(s)) => assert_eq!(s, "Not enough players to start a match"),
        other => panic!("unexpected {:?}", other),
    }
    server.on_datagram(&datagram(1, ClientMessage::Connect()), client(1), 0);
    server.on_datagram(&datagram(1, ClientMessage::Connect()), client(2), 0);
    match server.start_game(1) {
        Err(GameError::Io(s)) => assert_eq!(s, "Game already started"),
        other => panic!("unexpected {:?}", other),
    }
    server.packet_handler.game_state.reset();
    let outs = server.start_game(2).unwrap();
    assert_eq!(outs.len(), 1);
    assert_eq!(outs[0].targets, vec![client(1), client(2)]);
    assert!(matches!(open(&outs[0]).2, ServerMessage::GameStateChange(GameState::GameStarted)));
}

#[test]
fn two_connects_are_answered_and_the_start_is_broadcast() {
    let mut server = server();
    let outs = server.on_datagram(&datagram(7, ClientMessage::Connect()), client(1), 100);
    assert_eq!(outs.len(), 1);
    assert_eq!(outs[0].targets, vec![client(1)]);
    let (sequence, timestamp, message) = open(&outs[0]);
    assert_eq!((sequence, timestamp), (1, 100));
    assert!(matches!(message, ServerMessage::PlayerJoined(PlayerId::Player1)));

    let outs = server.on_datagram(&datagram(7, ClientMessage::Connect()), client(2), 200);
    assert_eq!(outs.len(), 2);
    assert_eq!(outs[0].targets, vec![client(2)]);
    let (sequence, timestamp, message) = open(&outs[0]);
    assert_eq!((sequence, timestamp), (2, 200));
    assert!(matches!(message, ServerMessage::PlayerJoined(PlayerId::Player2)));
    assert_eq!(outs[1].targets, vec![client(1), client(2)]);
    let (sequence, timestamp, message) = open(&outs[1]);
    assert_eq!((sequence, timestamp), (3, 200));
    assert!(matches!(message, ServerMessage::GameStateChange(GameState::GameStarted)));
}

#[test]
fn a_third_connect_gets_game_full_and_no_broadcast() {
    let mut server = server();
    server.on_datagram(&datagram(1, ClientMessage::Connect()), client(1), 0);
    server.on_datagram(&datagram(1, ClientMessage::Connect()), client(2), 0);
    let outs = server.on_datagram(&datagram(1, ClientMessage::Connect()), client(3), 0);
    assert_eq!(outs.len(), 1);
    assert_eq!(outs[0].targets, vec![client(3)]);
    assert!(matches!(open(&outs[0]).2, ServerMessage::Error(ServerError::GameFull)));
    let state = &server.packet_handler.game_state;
    assert_eq!(state.players().player_address(PlayerId::Player1).unwrap(), client(1));
    assert_eq!(state.players().player_address(PlayerId::Player2).unwrap(), client(2));
    assert_eq!(state.get_state(), GameState::GameStarted);
    assert_eq!(
        server.connection_manager.client_addresses(),
        vec![client(1), client(2), client(3)]
    );
}

#[test]
fn a_corrupt_datagram_sends_nothing_and_seats_nobody() {
    let mut server = server();
    server.on_datagram(&datagram(1, ClientMessage::Connect()), client(1), 0);
    let outs = server.on_datagram(&[0xde, 0xad], client(8), 5);
    assert!(outs.is_empty());
    assert_eq!(server.packet_handler.game_state.get_player_count(), 1);
    assert_eq!(server.packet_handler.game_state.get_state(), GameState::WaitingForPlayers);
    assert_eq!(server.connection_manager.client_addresses(), vec![client(1), client(8)]);
    let outs = server.on_datagram(&datagram(2, ClientMessage::Connect()), client(2), 6);
    assert_eq!(open(&outs[0]).0, 2);
}

#[test]
fn a_corrupt_datagram_still_keeps_its_sender_seated() {
    let mut server = server();
    server.on_datagram(&datagram(1, ClientMessage::Connect()), client(1), 0);
    server.on_datagram(&datagram(1, ClientMessage::Connect()), client(2), 0);
    // the second player's datagram arrives damaged
    assert!(server.on_datagram(&[1, 2, 3], client(2), 4_000).is_empty());
    let outs = server.sweep(5_001, 5_000);
    let state = &server.packet_handler.game_state;
    assert!(state.players().get_player(PlayerId::Player2).is_some());
    assert!(state.players().get_player(PlayerId::Player1).is_none());
    assert_eq!(server.connection_manager.client_addresses(), vec![client(2)]);
    assert_eq!(outs.len(), 1);
    assert_eq!(outs[0].targets, vec![client(2)]);
}

#[test]
fn a_silent_player_is_removed_and_the_wait_is_broadcast() {
    let mut server = server();
    server.on_datagram(&datagram(1, ClientMessage::Connect()), client(1), 0);
    server.on_datagram(&datagram(1, ClientMessage::Connect()), client(2), 0);
    let stop = ClientMessage::MovementCommand(MovementPacket::new(PlayerId::Player1, Movement::Stop));
    server.on_datagram(&datagram(2, stop), client(1), 4_000);
    assert!(server.sweep(5_000, 5_000).is_empty());
    let outs = server.sweep(5_001, 5_000);
    let state = &server.packet_handler.game_state;
    assert!(state.players().get_player(PlayerId::Player2).is_none());
    assert!(state.players().get_player(PlayerId::Player1).is_some());
    assert_eq!(state.get_state(), GameState::WaitingForPlayers);
    assert_eq!(outs.len(), 1);
    assert_eq!(outs[0].targets, vec![client(1)]);
    assert!(matches!(
        open(&outs[0]).2,
        ServerMessage::GameStateChange(GameState::WaitingForPlayers)
    ));
    assert!(server.sweep(5_002, 5_000).is_empty());
}

#[test]
fn a_snapshot_carries_positions_and_tally_together() {
    let mut server = server();
    assert!(server.snapshot(0).is_empty());
    server.on_datagram(&datagram(1, ClientMessage::Connect()), client(1), 0);
    assert!(server.snapshot(0).is_empty());
    server.on_datagram(&datagram(1, ClientMessage::Connect()), client(2), 0);
    let mut ball = Ball::new();
    ball.set_position(ONE / 4, 3 * ONE / 4);
    server.packet_handler.game_state.set_ball(ball);
    server.packet_handler.game_state.update_score(PlayerId::Player2);
    let outs = server.snapshot(50);
    assert_eq!(outs.len(), 2);
    assert_eq!(outs[0].targets, vec![client(1), client(2)]);
    assert_eq!(outs[1].targets, vec![client(1), client(2)]);
    let (first, _, positions) = open(&outs[0]);
    let (second, timestamp, scores) = open(&outs[1]);
    assert_eq!(second, first + 1);
    assert_eq!(timestamp, 50);
    match positions {
        ServerMessage::PositionUpdate(p) => {
            let (one, two, ball) = p.get_payload();
            assert_eq!((f32::from_bits(ball.0), f32::from_bits(ball.1)), (0.25, 0.75));
            assert_eq!(f32::from_bits(one.0), 0.5);
            assert_eq!(f32::from_bits(two.0), 0.5);
            assert!(f32::from_bits(one.1) > f32::from_bits(two.1));
        }
        other => panic!("unexpected {:?}", other),
    }
    match scores {
        ServerMessage::ScoreUpdate(s) => assert_eq!(s.get_payload(), (0, 1)),
        other => panic!("unexpected {:?}", other),
    }
}

#[test]
fn a_tick_advances_the_match_and_is_quiet_without_a_change_of_phase() {
    let mut server = server();
    server.on_datagram(&datagram(1, ClientMessage::Connect()), client(1), 0);
    server.on_datagram(&datagram(1, ClientMessage::Connect()), client(2), 0);
    let mut ball = Ball::new();
    ball.set_position(CENTER, CENTER);
    ball.set_velocity(1_000, 2_000);
    server.packet_handler.game_state.set_ball(ball);
    assert!(server.tick(TICK_RATE_MS).is_empty());
    assert_eq!(
        server.packet_handler.game_state.ball().get_position(),
        (CENTER + 1_000, CENTER + 2_000)
    );
    assert_eq!((TICK_RATE_MS, BROADCAST_INTERVAL_MS), (16, 50));
}

#[test]
fn queued_players_are_paired_into_new_matches() {
    let mut server = server();
    for port in 1..=3 {
        server.matchmaking.add_player(Player::new(PlayerId::Player1, client(port)), 0);
    }
    let matches = server.pair(10);
    assert_eq!(matches.len(), 1);
    assert_eq!(matches[0].players().player_address(PlayerId::Player2).unwrap(), client(2));
    assert_eq!(server.matchmaking.get_queue_status(10), vec![(PlayerId::Player1, 10)]);
    assert_eq!(server.packet_handler.game_state.get_player_count(), 0);
}
