use rong_server::address::NetAddr;
use rong_server::fixed::ONE;
use rong_server::model::{Movement, PlayerId};
use rong_server::player::{
    start_position, Player, ACCELERATION, MAX_SPEED, ROW_PLAYER1, ROW_PLAYER2, START_X, TRAVEL_MAX,
    TRAVEL_MIN,
};

fn local(port: u16) -> NetAddr {
    NetAddr::v4(127, 0, 0, 1, port)
}

#[test]
fn test_player_bounds() {
    let addr = local(8080);
    let mut player = Player::new(PlayerId::Player1, addr);

    // a tenth of the field below the bottom edge
    player.set_position(0, -ONE / 10);
    assert!(
        player.get_position().1 >= 0,
        "Player should not move below the bottom of the screen"
    );

    // a tenth of the field above the top edge
    player.set_position(0, ONE + ONE / 10);
    assert!(
        player.get_position().1 <= ONE,
        "Player should not move above the top of the screen"
    );
}

#[test]
fn new_player_rests_in_the_corner() {
    let player = Player::new(PlayerId::Player2, local(9000));
    assert_eq!(player.get_id(), PlayerId::Player2);
    assert_eq!(player.get_addr(), local(9000));
    assert_eq!(player.get_position(), (0, 0));
    assert_eq!(player.get_velocity(), 0);
}

#[test]
fn address_packs_octets_big_endian() {
    assert_eq!(local(8080), NetAddr::V4 { ip: 0x7f00_0001, port: 8080 });
    assert_eq!(local(8080).port(), 8080);
    assert_ne!(local(8080), local(8081));
    assert_eq!(NetAddr::V6 { ip: 1, port: 7, flowinfo: 0, scope_id: 0 }.port(), 7);
}

#[test]
fn set_position_clamps_both_axes() {
    let mut player = Player::new(PlayerId::Player1, local(1));
    player.set_position(-5, 2 * ONE);
    assert_eq!(player.get_position(), (0, ONE));
    player.set_position(START_X, ROW_PLAYER1);
    assert_eq!(player.get_position(), (START_X, ROW_PLAYER1));
}

#[test]
fn start_positions_are_on_the_two_rows() {
    assert_eq!(start_position(PlayerId::Player1), (START_X, ROW_PLAYER1));
    assert_eq!(start_position(PlayerId::Player2), (START_X, ROW_PLAYER2));
    assert_eq!((START_X, ROW_PLAYER1, ROW_PLAYER2), (524_288, 943_718, 104_858));
}

#[test]
fn commands_change_velocity_by_one_step() {
    let mut player = Player::new(PlayerId::Player1, local(1));
    player.move_up();
    assert_eq!(player.get_velocity(), 20_972);
    player.move_down();
    assert_eq!(player.get_velocity(), 0);
    player.move_down();
    assert_eq!(player.get_velocity(), -20_972);
    player.stop();
    assert_eq!(player.get_velocity(), 0);
    player.apply_movement(Movement::Up);
    assert_eq!(player.get_velocity(), ACCELERATION);
}

#[test]
fn the_same_command_twice_adds_two_steps_and_no_more() {
    let mut player = Player::new(PlayerId::Player1, local(1));
    player.move_up();
    player.move_up();
    assert_eq!(player.get_velocity(), 2 * ACCELERATION);
    assert_eq!(player.get_position(), (0, 0));
    player.stop();
    player.stop();
    assert_eq!(player.get_velocity(), 0);
    player.move_down();
    player.move_down();
    assert_eq!(player.get_velocity(), -2 * ACCELERATION);
}

#[test]
fn velocity_is_capped_at_the_maximum() {
    let mut player = Player::new(PlayerId::Player1, local(1));
    for _ in 0..20 {
        player.move_up();
    }
    assert_eq!(player.get_velocity(), MAX_SPEED);
    for _ in 0..40 {
        player.move_down();
    }
    assert_eq!(player.get_velocity(), -MAX_SPEED);
}

#[test]
fn a_tick_moves_the_paddle_and_slows_it() {
    let mut player = Player::new(PlayerId::Player1, local(1));
    player.set_position(START_X, ROW_PLAYER1);
    for _ in 0..10 {
        player.move_up();
    }
    assert_eq!(player.get_velocity(), 209_715);
    player.update_position(16);
    // 209_715 * 16 / 1000 = 3_355 ; 262_144 * 16 / 1000 = 4_194
    assert_eq!(player.get_position(), (START_X + 3_355, ROW_PLAYER1));
    assert_eq!(player.get_velocity(), 209_715 - 4_194);
}

#[test]
fn a_tick_moves_down_with_rounding_toward_zero() {
    let mut player = Player::new(PlayerId::Player1, local(1));
    player.set_position(START_X, ROW_PLAYER2);
    player.move_down();
    player.update_position(1);
    // -20_972 * 1 / 1000 rounds toward zero
    assert_eq!(player.get_position(), (START_X - 20, ROW_PLAYER2));
    assert_eq!(player.get_velocity(), -20_972 + 262);
}

#[test]
fn a_coasting_paddle_comes_to_rest() {
    let mut player = Player::new(PlayerId::Player1, local(1));
    player.set_position(START_X, ROW_PLAYER1);
    player.move_up();
    player.update_position(100);
    assert_eq!(player.get_velocity(), 0);
    let x = player.get_position().0;
    player.update_position(100);
    assert_eq!(player.get_position().0, x);
}

#[test]
fn a_tick_brings_the_paddle_into_its_range() {
    let mut player = Player::new(PlayerId::Player1, local(1));
    player.update_position(16);
    assert_eq!(player.get_position().0, TRAVEL_MIN);
    player.set_position(ONE, 0);
    player.update_position(0);
    assert_eq!(player.get_position().0, TRAVEL_MAX);
}

#[test]
fn pushing_up_reaches_the_far_end_and_never_passes_it() {
    let mut player = Player::new(PlayerId::Player1, local(1));
    player.set_position(START_X, ROW_PLAYER1);
    let mut last = player.get_position().0;
    let mut rounds = 0;
    while player.get_position().0 < TRAVEL_MAX {
        player.move_up();
        player.update_position(16);
        let x = player.get_position().0;
        assert!(x <= TRAVEL_MAX);
        assert!(x == TRAVEL_MAX || x >= last + 20);
        last = x;
        rounds += 1;
        assert!(rounds < 25_000);
    }
    for _ in 0..100 {
        player.move_up();
        player.update_position(16);
        assert_eq!(player.get_position().0, TRAVEL_MAX);
    }
}

#[test]
fn a_long_tick_does_not_overflow() {
    let mut player = Player::new(PlayerId::Player1, local(1));
    for _ in 0..10 {
        player.move_down();
    }
    player.update_position(u32::MAX);
    assert_eq!(player.get_position().0, TRAVEL_MIN);
    assert_eq!(player.get_velocity(), 0);
}

#[test]
fn pushing_up_turns_a_paddle_that_was_moving_down() {
    let mut player = Player::new(PlayerId::Player1, local(1));
    player.set_position(START_X, ROW_PLAYER1);
    for _ in 0..10 {
        player.move_down();
    }
    assert_eq!(player.get_velocity(), -MAX_SPEED);
    for _ in 0..10 {
        player.move_up();
        player.update_position(1);
        assert!(player.get_position().0 >= TRAVEL_MIN);
    }
    assert!(player.get_velocity() >= 0);
    let mut rounds = 10;
    while player.get_position().0 < TRAVEL_MAX {
        let x = player.get_position().0;
        player.move_up();
        player.update_position(1);
        assert!(player.get_position().0 == TRAVEL_MAX || player.get_position().0 >= x + 20);
        rounds += 1;
        assert!(rounds <= 45_886);
    }
}

#[test]
fn one_push_alone_does_not_carry_the_paddle_to_the_end() {
    let mut player = Player::new(PlayerId::Player1, local(1));
    player.set_position(START_X, ROW_PLAYER1);
    player.move_up();
    for _ in 0..1_000 {
        player.update_position(16);
    }
    assert_eq!(player.get_velocity(), 0);
    assert_eq!(player.get_position().0, START_X + 335 + 268 + 201 + 134 + 67);
}
