use rong_server::address::NetAddr;
use rong_server::ball::{Ball, CENTER, FIELD_MAX, FIELD_MIN};
use rong_server::error::{GameError, ServerError};
use rong_server::fixed::ONE;
use rong_server::game_update::{PositionData, Score, ScoreData};
use rong_server::model::{EntityId, GameState, Movement, PlayerId};
use rong_server::player::{ROW_PLAYER1, ROW_PLAYER2, START_X};
use rong_server::registry::PlayerManager;
use rong_server::state::{seat_number, State};

fn v4(d: u8, port: u16) -> NetAddr {
    NetAddr::v4(127, 0, 0, d, port)
}

fn setup_test_environment() -> State {
    State::new(PlayerManager::new(), 0)
}

fn started_match() -> State {
    let mut state = setup_test_environment();
    state.add_player(PlayerId::Player1, v4(1, 8080), 0).unwrap();
    state.add_player(PlayerId::Player2, v4(1, 8081), 0).unwrap();
    state.start_new_match(0).unwrap();
    state
}

fn ball_at(x: i64, y: i64, dx: i64, dy: i64) -> Ball {
    let mut ball = Ball::new();
    ball.set_position(x, y);
    ball.set_velocity(dx, dy);
    ball
}

#[test]
fn test_game_state_transitions() {
    let mut state = setup_test_environment();

    assert_eq!(
        state.get_state(),
        GameState::WaitingForPlayers,
        "Initial state should be WaitingForPlayers"
    );

    // Add players
    state.add_player(PlayerId::Player1, v4(1, 8080), 0).unwrap();
    state.add_player(PlayerId::Player2, v4(1, 8081), 0).unwrap();

    // Start the game
    state.start_game().unwrap();
    assert_eq!(state.get_state(), GameState::GameStarted, "Game should have started");

    state.end_game();
    assert_eq!(state.get_state(), GameState::GameOver, "Game should be over");
}

#[test]
fn test_score_update() {
    let mut state = setup_test_environment();

    // Add players and start game
    state.add_player(PlayerId::Player1, v4(1, 8080), 0).unwrap();
    state.add_player(PlayerId::Player2, v4(1, 8081), 0).unwrap();
    state.start_game().unwrap();

    // Initial score should be 0-0
    assert_eq!(state.get_scores().get_payload(), (0, 0), "Initial scores should be 0-0");

    // Simulate a score
    state.update_score(PlayerId::Player1);
    assert_eq!(state.get_scores().get_payload(), (1, 0), "Player 1 should have scored");

    state.update_score(PlayerId::Player2);
    assert_eq!(state.get_scores().get_payload(), (1, 1), "Both players should have scored");
}

#[test]
fn scores_stop_at_the_largest_count() {
    let mut state = started_match();
    for _ in 0..300 {
        state.update_score(PlayerId::Player2);
    }
    assert_eq!(state.get_scores().get_payload(), (0, 255));
}

#[test]
fn a_match_starts_only_with_two_players_while_waiting() {
    let mut state = setup_test_environment();
    match state.start_game() {
        Err(GameError::Io(s)) => assert_eq!(s, "Not enough players to start a match"),
        other => panic!("unexpected {:?}", other),
    }
    match state.start_new_match(5) {
        Err(GameError::Io(s)) => assert_eq!(s, "Not enough players to start a match"),
        other => panic!("unexpected {:?}", other),
    }
    state.add_player(PlayerId::Player1, v4(1, 1), 0).unwrap();
    assert!(state.start_game().is_err());
    assert_eq!(state.get_state(), GameState::WaitingForPlayers);
    state.add_player(PlayerId::Player2, v4(1, 2), 0).unwrap();
    assert!(state.start_new_match(5).is_ok());
    assert_eq!(state.get_state(), GameState::GameStarted);
    match state.start_new_match(6) {
        Err(GameError::Io(s)) => assert_eq!(s, "Cannot start a new match in the current state"),
        other => panic!("unexpected {:?}", other),
    }
    match state.start_game() {
        Err(GameError::Io(s)) => assert_eq!(s, "Game already started"),
        other => panic!("unexpected {:?}", other),
    }
    assert_eq!(state.get_state(), GameState::GameStarted);
}

#[test]
fn starting_a_match_lines_the_paddles_up_and_serves() {
    let mut state = setup_test_environment();
    state.add_player(PlayerId::Player2, v4(1, 2), 0).unwrap();
    state.add_player(PlayerId::Player1, v4(1, 1), 0).unwrap();
    state.update_score(PlayerId::Player1);
    state.set_ball(ball_at(1, 1, 1, 1));
    state.start_new_match(77).unwrap();
    assert_eq!(state.get_scores().get_payload(), (0, 0));
    assert_eq!(state.ball().get_position(), (CENTER, CENTER));
    assert_ne!(state.ball().get_velocity().1, 0);
    assert_eq!(
        state.players().get_positions(),
        vec![
            (PlayerId::Player1, (START_X, ROW_PLAYER1)),
            (PlayerId::Player2, (START_X, ROW_PLAYER2)),
        ]
    );
}

#[test]
fn a_game_ends_only_when_under_way() {
    let mut state = setup_test_environment();
    state.end_game();
    assert_eq!(state.get_state(), GameState::WaitingForPlayers);
    let mut state = started_match();
    state.end_game();
    assert_eq!(state.get_state(), GameState::GameOver);
    state.end_game();
    assert_eq!(state.get_state(), GameState::GameOver);
}

#[test]
fn a_ball_on_the_top_goal_line_scores_once_for_player_one() {
    let mut state = started_match();
    // the ball at (0.5, 0.0), on its way into the goal that player 2 defends
    state.set_ball(ball_at(ONE / 2, 0, 0, -5_000));
    assert_eq!(state.ball().get_position(), (ONE / 2, FIELD_MIN));
    state.check_scoring();
    assert_eq!(state.get_scores().get_payload(), (1, 0));
    assert_eq!(state.ball().get_position(), (ONE / 2, ONE / 2));
    assert!(state.ball().get_velocity().1 < 0, "the serve goes to the player who lost the point");
    state.check_scoring();
    assert_eq!(state.get_scores().get_payload(), (1, 0));
    assert_eq!(state.get_state(), GameState::GameStarted);
}

#[test]
fn a_tick_scores_a_ball_that_reaches_the_goal_line() {
    let mut state = started_match();
    state.set_ball(ball_at(ONE / 2, 0, 0, -5_000));
    state.update(16).unwrap();
    assert_eq!(state.get_scores().get_payload(), (1, 0));
    assert_eq!(state.ball().get_position(), (CENTER, CENTER));
    state.update(32).unwrap();
    assert_eq!(state.get_scores().get_payload(), (1, 0));
}

#[test]
fn a_ball_on_the_bottom_goal_line_scores_for_player_two() {
    let mut state = started_match();
    state.set_ball(ball_at(200_000, ONE, 0, 5_000));
    assert_eq!(state.ball().get_position(), (200_000, FIELD_MAX));
    state.check_scoring();
    assert_eq!(state.get_scores().get_payload(), (0, 1));
    assert_eq!(state.ball().get_position(), (CENTER, CENTER));
    assert!(state.ball().get_velocity().1 > 0);
}

#[test]
fn side_walls_do_not_score() {
    let mut state = started_match();
    let ball = ball_at(0, CENTER, -5_000, 100);
    state.set_ball(ball);
    state.check_scoring();
    assert_eq!(state.get_scores().get_payload(), (0, 0));
    assert_eq!(state.ball().get_position(), (FIELD_MIN, CENTER));
    state.handle_collisions();
    assert_eq!(state.ball().get_velocity(), (5_000, 100));
}

#[test]
fn a_tick_moves_paddles_and_ball() {
    let mut state = started_match();
    state.set_ball(ball_at(CENTER, CENTER, 3_000, 1_000));
    assert!(state.move_player(PlayerId::Player1, Movement::Up));
    state.update(16).unwrap();
    assert_eq!(state.ball().get_position(), (CENTER + 3_000, CENTER + 1_000));
    let one = state.players().get_player(PlayerId::Player1).unwrap();
    assert_eq!(one.get_position(), (START_X + 335, ROW_PLAYER1));
    let two = state.players().get_player(PlayerId::Player2).unwrap();
    assert_eq!(two.get_position(), (START_X, ROW_PLAYER2));
    assert_eq!(state.get_state(), GameState::GameStarted);
}

#[test]
fn a_tick_reflects_the_ball_at_a_side_wall() {
    let mut state = started_match();
    state.set_ball(ball_at(FIELD_MAX - 100, CENTER, 3_000, 1_000));
    state.update(16).unwrap();
    assert_eq!(state.ball().get_position(), (FIELD_MAX, CENTER + 1_000));
    assert_eq!(state.ball().get_velocity(), (-3_000, 1_000));
    state.update(32).unwrap();
    assert_eq!(state.ball().get_position(), (FIELD_MAX - 3_000, CENTER + 2_000));
}

#[test]
fn a_waiting_match_starts_on_the_tick_that_finds_two_players() {
    let mut state = setup_test_environment();
    state.update(10).unwrap();
    assert_eq!(state.get_state(), GameState::WaitingForPlayers);
    state.add_player(PlayerId::Player1, v4(1, 1), 10).unwrap();
    state.add_player(PlayerId::Player2, v4(1, 2), 10).unwrap();
    state.update_score(PlayerId::Player2);
    state.update(20).unwrap();
    assert_eq!(state.get_state(), GameState::GameStarted);
    assert_eq!(state.ball().get_position(), (CENTER, CENTER));
    assert_eq!(state.get_scores().get_payload(), (0, 0));
    assert_eq!(
        state.players().get_positions(),
        vec![
            (PlayerId::Player1, (START_X, ROW_PLAYER1)),
            (PlayerId::Player2, (START_X, ROW_PLAYER2)),
        ]
    );
}

#[test]
fn start_game_lines_the_paddles_up_and_keeps_the_tally() {
    let mut state = setup_test_environment();
    state.add_player(PlayerId::Player1, v4(1, 1), 0).unwrap();
    state.add_player(PlayerId::Player2, v4(1, 2), 0).unwrap();
    state.update_score(PlayerId::Player1);
    state.start_game().unwrap();
    assert_eq!(state.get_scores().get_payload(), (1, 0));
    assert_eq!(state.ball().get_position(), (CENTER, CENTER));
    assert_eq!(
        state.players().get_positions(),
        vec![
            (PlayerId::Player1, (START_X, ROW_PLAYER1)),
            (PlayerId::Player2, (START_X, ROW_PLAYER2)),
        ]
    );
}

#[test]
fn a_finished_match_stands_still() {
    let mut state = started_match();
    state.set_ball(ball_at(CENTER, CENTER, 3_000, 1_000));
    state.end_game();
    state.update(1_000).unwrap();
    assert_eq!(state.ball().get_position(), (CENTER, CENTER));
    assert_eq!(state.get_state(), GameState::GameOver);
}

#[test]
fn a_silent_player_is_swept_and_the_match_waits_again() {
    let mut state = started_match();
    state.update_last_seen(v4(1, 8080), 4_000);
    assert_eq!(state.remove_inactive_players(5_000, 5_000), 0);
    assert_eq!(state.get_state(), GameState::GameStarted);
    assert_eq!(state.remove_inactive_players(6_000, 5_000), 1);
    assert!(state.players().get_player(PlayerId::Player2).is_none());
    assert!(state.players().get_player(PlayerId::Player1).is_some());
    assert_eq!(state.get_state(), GameState::WaitingForPlayers);
    assert_eq!(state.get_player_count(), 1);
}

#[test]
fn leaving_a_running_match_makes_it_wait() {
    let mut state = started_match();
    state.remove_player(PlayerId::Player1).unwrap();
    assert_eq!(state.get_state(), GameState::WaitingForPlayers);
    assert!(matches!(state.remove_player(PlayerId::Player1), Err(ServerError::PlayerNotFound)));
    state.update(16).unwrap();
    assert_eq!(state.get_state(), GameState::WaitingForPlayers);
}

#[test]
fn positions_go_on_the_wire_as_singles() {
    let mut state = setup_test_environment();
    match state.get_positions() {
        Err(GameError::Io(s)) => assert_eq!(s, "Not enough players"),
        other => panic!("unexpected {:?}", other),
    }
    state.add_player(PlayerId::Player1, v4(1, 1), 0).unwrap();
    assert!(state.get_positions().is_err());
    state.add_player(PlayerId::Player2, v4(1, 2), 0).unwrap();
    state.start_new_match(0).unwrap();
    let packet = state.get_positions().unwrap();
    let (one, two, ball) = packet.get_payload();
    assert_eq!(f32::from_bits(one.0), 0.5);
    assert_eq!(f32::from_bits(one.1), 943_718.0 / 1_048_576.0);
    assert_eq!(f32::from_bits(two.0), 0.5);
    assert_eq!(f32::from_bits(two.1), 104_858.0 / 1_048_576.0);
    assert_eq!((f32::from_bits(ball.0), f32::from_bits(ball.1)), (0.5, 0.5));
    assert!((f32::from_bits(one.1) - 0.9).abs() < 1e-6);
    assert!((f32::from_bits(two.1) - 0.1).abs() < 1e-6);
}

#[test]
fn reset_brings_the_match_back_to_its_beginning() {
    let mut state = started_match();
    state.update_score(PlayerId::Player1);
    state.move_player(PlayerId::Player2, Movement::Down);
    state.update(100).unwrap();
    state.reset();
    assert_eq!(state.get_state(), GameState::WaitingForPlayers);
    assert_eq!(state.get_scores().get_payload(), (0, 0));
    assert_eq!(state.ball().get_position(), (CENTER, CENTER));
    assert_eq!(
        state.players().get_positions(),
        vec![
            (PlayerId::Player1, (START_X, ROW_PLAYER1)),
            (PlayerId::Player2, (START_X, ROW_PLAYER2)),
        ]
    );
}

#[test]
fn seats_have_numbers() {
    assert_eq!(seat_number(PlayerId::Player1), 1);
    assert_eq!(seat_number(PlayerId::Player2), 2);
    assert_eq!(PlayerId::Player1.opponent(), PlayerId::Player2);
    assert_eq!(PlayerId::Player2.opponent(), PlayerId::Player1);
}

#[test]
fn a_snapshot_reads_positions_tally_and_phase_together() {
    let mut state = setup_test_environment();
    assert!(state.snapshot().is_err());
    state.add_player(PlayerId::Player1, v4(1, 1), 0).unwrap();
    state.add_player(PlayerId::Player2, v4(1, 2), 0).unwrap();
    state.start_new_match(0).unwrap();
    state.update_score(PlayerId::Player2);
    let picture = state.snapshot().unwrap();
    assert_eq!(picture.game_status(), GameState::GameStarted);
    assert_eq!(*picture.scores().index(PlayerId::Player1), Score(0));
    assert_eq!(*picture.scores().index(PlayerId::Player2), Score(1));
    let ball = picture.positions().index(EntityId::Ball);
    assert_eq!((f32::from_bits(ball.0), f32::from_bits(ball.1)), (0.5, 0.5));
    let two = picture.positions().index(EntityId::Player(PlayerId::Player2));
    assert_eq!(f32::from_bits(two.0), 0.5);
    let mut scores = ScoreData::new(Score(1), Score(2));
    scores.set(PlayerId::Player1, Score(9));
    assert_eq!((*scores.index(PlayerId::Player1), *scores.index(PlayerId::Player2)), (Score(9), Score(2)));
    let mut positions = PositionData::new((1, 2), (3, 4), (5, 6));
    positions.set(EntityId::Ball, (7, 8));
    assert_eq!(*positions.index(EntityId::Ball), (7, 8));
    assert_eq!(*positions.index(EntityId::Player(PlayerId::Player1)), (1, 2));
    assert_eq!(*positions.index(EntityId::Player(PlayerId::Player2)), (3, 4));
}
