use rong_server::address::NetAddr;
use rong_server::ball::{
    serve_velocity, Ball, Wall, BALL_RADIUS, CENTER, CLEARANCE, FIELD_MAX, FIELD_MIN, GAP,
    HALF_HEIGHT, HALF_WIDTH, INITIAL_BALL_SPEED, MAX_BALL_SPEED,
};
use rong_server::fixed::{cos, sin, ONE, PI_SIXTH};
use rong_server::model::PlayerId;
use rong_server::player::{
    Player, PLAYER_HEIGHT, PLAYER_WIDTH, ROW_PLAYER1, ROW_PLAYER2, START_X, TRAVEL_MAX, TRAVEL_MIN,
};

fn paddle(id: PlayerId, x: i64, y: i64) -> Player {
    let mut p = Player::new(id, NetAddr::v4(127, 0, 0, 1, 4000));
    p.set_position(x, y);
    p
}

fn ball_at(x: i64, y: i64, dx: i64, dy: i64) -> Ball {
    let mut ball = Ball::new();
    ball.set_position(x, y);
    ball.set_velocity(dx, dy);
    ball
}

#[test]
fn constants_fit_together() {
    assert_eq!(FIELD_MIN, BALL_RADIUS);
    assert_eq!(FIELD_MAX, ONE - BALL_RADIUS);
    assert_eq!(MAX_BALL_SPEED, 2 * BALL_RADIUS);
    assert_eq!(CENTER, ONE / 2);
    assert_eq!(PLAYER_WIDTH, ONE / 8);
    assert_eq!(2 * HALF_WIDTH, PLAYER_WIDTH);
    assert_eq!(2 * HALF_HEIGHT, PLAYER_HEIGHT);
    assert_eq!((TRAVEL_MIN, TRAVEL_MAX), (HALF_WIDTH, ONE - HALF_WIDTH));
    assert_eq!(START_X, CENTER);
    assert_eq!(GAP, 1);
    assert_eq!(CLEARANCE, HALF_HEIGHT + BALL_RADIUS + GAP);
    // a hundredth, a sixtieth and two hundredths of the field, to the nearest unit
    assert_eq!(BALL_RADIUS, (0.01f64 * ONE as f64).round() as i64);
    assert_eq!(PLAYER_HEIGHT / 2, (0.0167f64 * ONE as f64 / 2.0).round() as i64);
    assert_eq!(INITIAL_BALL_SPEED, (0.005f64 * ONE as f64).round() as i64);
}

#[test]
fn a_new_ball_is_served_from_the_centre() {
    for _ in 0..50 {
        let ball = Ball::new();
        assert_eq!(ball.get_position(), (CENTER, CENTER));
        let (dx, dy) = ball.get_velocity();
        assert!(dx.abs() <= 2_622, "dx = {}", dx);
        assert!((4_540..=5_243).contains(&dy.abs()), "dy = {}", dy);
    }
}

#[test]
fn a_serve_goes_toward_the_named_seat() {
    let mut ball = ball_at(100_000, 200_000, 7, 7);
    for _ in 0..50 {
        ball.reset(1);
        assert_eq!(ball.get_position(), (CENTER, CENTER));
        assert!(ball.get_velocity().1 > 0);
        ball.reset(2);
        assert!(ball.get_velocity().1 < 0);
        ball.reset(7);
        assert!(ball.get_velocity().1 < 0);
    }
}

#[test]
fn serves_differ_by_chance() {
    let mut ball = Ball::new();
    let mut seen = Vec::new();
    for _ in 0..200 {
        ball.reset(1);
        let v = ball.get_velocity();
        if !seen.contains(&v) {
            seen.push(v);
        }
    }
    assert!(seen.len() > 1, "two hundred serves were all alike: {:?}", seen);
}

#[test]
fn reset_velocity_leaves_the_ball_in_place() {
    let mut ball = ball_at(100_000, 200_000, 7, 7);
    ball.reset_velocity(1);
    assert_eq!(ball.get_position(), (100_000, 200_000));
    assert!(ball.get_velocity().1 >= 4_540);
    assert!(ball.get_velocity().0.abs() <= 2_622);
    ball.reset_velocity(2);
    assert!(ball.get_velocity().1 <= -4_540);
}

#[test]
fn serve_velocity_has_exact_values() {
    assert_eq!(serve_velocity(1, 0), (0, 5_243));
    assert_eq!(serve_velocity(2, 0), (0, -5_243));
    assert_eq!(serve_velocity(0, 0), (0, -5_243));
    let a = PI_SIXTH - 1;
    let expected = (INITIAL_BALL_SPEED * sin(a) / ONE, INITIAL_BALL_SPEED * cos(a) / ONE);
    assert_eq!(serve_velocity(1, a), expected);
    assert_eq!(serve_velocity(1, -a), (-expected.0, expected.1));
    assert_eq!(serve_velocity(2, a), (expected.0, -expected.1));
    assert_eq!(expected, (2_621, 4_540));
}

#[test]
fn reset_at_angle_is_exact() {
    let mut ball = ball_at(1, 1, 1, 1);
    ball.reset_at_angle(1, 0);
    assert_eq!(ball.get_position(), (CENTER, CENTER));
    assert_eq!(ball.get_velocity(), (0, INITIAL_BALL_SPEED));
}

#[test]
fn set_position_keeps_the_ball_on_the_field() {
    let mut ball = Ball::new();
    ball.set_position(ONE / 2, 0);
    assert_eq!(ball.get_position(), (ONE / 2, FIELD_MIN));
    ball.set_position(-1, 2 * ONE);
    assert_eq!(ball.get_position(), (FIELD_MIN, FIELD_MAX));
    ball.set_velocity(1_000_000, -1_000_000);
    assert_eq!(ball.get_velocity(), (MAX_BALL_SPEED, -MAX_BALL_SPEED));
}

#[test]
fn a_free_ball_moves_by_its_velocity() {
    let mut ball = ball_at(CENTER, CENTER, 20_972, -10_486);
    ball.update_position(&Vec::new());
    assert_eq!(ball.get_position(), (CENTER + 20_972, CENTER - 10_486));
    assert_eq!(ball.get_velocity(), (20_972, -10_486));
}

#[test]
fn sub_steps_round_toward_zero() {
    // two sub-steps of (5_243, -1): the odd unit of dy is lost
    let mut ball = ball_at(CENTER, CENTER, 10_487, -3);
    ball.update_position(&Vec::new());
    assert_eq!(ball.get_position(), (CENTER + 10_486, CENTER - 2));
}

#[test]
fn a_slow_ball_takes_one_sub_step() {
    let mut ball = ball_at(CENTER, CENTER, 1, 0);
    ball.update_position(&Vec::new());
    assert_eq!(ball.get_position(), (CENTER + 1, CENTER));
}

#[test]
fn a_ball_at_rest_does_not_move_and_hits_nothing() {
    let mut ball = ball_at(START_X, ROW_PLAYER1, 0, 0);
    let paddles = vec![paddle(PlayerId::Player1, START_X, ROW_PLAYER1)];
    ball.update_position(&paddles);
    assert_eq!(ball.get_position(), (START_X, ROW_PLAYER1));
    assert_eq!(ball.get_velocity(), (0, 0));
    assert!(!ball.check_collision(START_X, ROW_PLAYER1, &paddles[0]));
}

#[test]
fn the_ball_stops_at_the_edge_of_the_field() {
    let mut ball = ball_at(FIELD_MAX - 5, CENTER, 10_000, 0);
    ball.update_position(&Vec::new());
    assert_eq!(ball.get_position(), (FIELD_MAX, CENTER));
    let mut ball = ball_at(CENTER, FIELD_MIN + 3, 0, -20_000);
    ball.update_position(&Vec::new());
    assert_eq!(ball.get_position(), (CENTER, FIELD_MIN));
}

#[test]
fn walls_are_told_apart() {
    assert_eq!(ball_at(CENTER, CENTER, 0, 0).which_wall(), Wall::Clear);
    assert!(!ball_at(CENTER, CENTER, 0, 0).collides_with_wall());
    assert_eq!(ball_at(CENTER, 0, 0, 0).which_wall(), Wall::Top);
    assert_eq!(ball_at(CENTER, ONE, 0, 0).which_wall(), Wall::Bottom);
    assert_eq!(ball_at(0, CENTER, 0, 0).which_wall(), Wall::Left);
    assert_eq!(ball_at(ONE, CENTER, 0, 0).which_wall(), Wall::Right);
    assert_eq!(ball_at(0, 0, 0, 0).which_wall(), Wall::Top);
    assert_eq!(ball_at(ONE, ONE, 0, 0).which_wall(), Wall::Bottom);
    assert!(ball_at(0, CENTER, 0, 0).collides_with_wall());
    assert_eq!(ball_at(FIELD_MIN + 1, FIELD_MAX - 1, 0, 0).which_wall(), Wall::Clear);
}

#[test]
fn side_walls_mirror_the_horizontal_velocity() {
    let mut ball = ball_at(0, CENTER, -300, 40);
    ball.bounce_off_wall();
    assert_eq!(ball.get_velocity(), (300, 40));
    assert_eq!(ball.get_position(), (FIELD_MIN, CENTER));
    // the ball has not moved: a second reflection gives the first velocity back
    ball.bounce_off_wall();
    assert_eq!(ball.get_velocity(), (-300, 40));
    let mut ball = ball_at(ONE, CENTER, 300, 40);
    ball.bounce_off_wall();
    assert_eq!(ball.get_velocity(), (-300, 40));
    ball.bounce_off_wall();
    assert_eq!(ball.get_velocity(), (300, 40));
    let mut ball = ball_at(FIELD_MIN, CENTER, 7, -9);
    ball.bounce_off_wall();
    assert_eq!(ball.get_velocity(), (-7, -9));
}

#[test]
fn away_from_the_side_walls_nothing_is_mirrored() {
    let mut ball = ball_at(CENTER, 0, 300, -40);
    ball.bounce_off_wall();
    assert_eq!(ball.get_velocity(), (300, -40));
    let mut ball = ball_at(FIELD_MIN + 1, CENTER, -300, 40);
    ball.bounce_off_wall();
    assert_eq!(ball.get_velocity(), (-300, 40));
    let mut ball = ball_at(FIELD_MAX - 1, ONE, 300, 40);
    ball.bounce_off_wall();
    assert_eq!(ball.get_velocity(), (300, 40));
    assert_eq!(ball.radius(), BALL_RADIUS);
}

#[test]
fn a_paddle_in_the_way_deflects_the_ball() {
    let paddles = vec![
        paddle(PlayerId::Player1, START_X, ROW_PLAYER1),
        paddle(PlayerId::Player2, START_X, ROW_PLAYER2),
    ];
    let mut ball = ball_at(START_X, 920_000, 0, 10_486);
    assert!(ball.check_collision(START_X, 930_486, &paddles[0]));
    assert!(!ball.check_collision(START_X, 930_486, &paddles[1]));
    ball.update_position(&paddles);
    // straight back, one percent faster, just above the paddle
    assert_eq!(ball.get_velocity(), (0, -10_590));
    assert_eq!(ball.get_position(), (START_X, ROW_PLAYER1 - 8_756 - BALL_RADIUS - 1));
    assert!(!ball.check_collision(START_X, ball.get_position().1 - 5_295, &paddles[0]));
}

#[test]
fn the_hit_offset_sets_the_angle() {
    let two = paddle(PlayerId::Player2, START_X, ROW_PLAYER2);
    // half way to the paddle's right end: thirty degrees
    let mut ball = ball_at(START_X + 32_768, 130_000, 0, -10_486);
    ball.handle_collision(&two);
    let expected = (10_590 * sin(PI_SIXTH) / ONE, 10_590 * cos(PI_SIXTH) / ONE);
    assert_eq!(ball.get_velocity(), expected);
    assert_eq!(ball.get_position(), (START_X + 32_768, ROW_PLAYER2 + 8_756 + BALL_RADIUS + 1));
    // beyond the left end: sixty degrees, no more
    let mut ball = ball_at(START_X - 70_000, 130_000, 0, -10_486);
    ball.handle_collision(&two);
    let (dx, dy) = ball.get_velocity();
    assert!(dx < 0 && dy > 0);
    assert!((dx as f64 / 10_590.0 + (60.0f64).to_radians().sin()).abs() < 1e-3);
    assert!((dy as f64 / 10_590.0 - 0.5).abs() < 1e-3);
}

#[test]
fn deflection_never_passes_the_speed_limit() {
    let one = paddle(PlayerId::Player1, START_X, ROW_PLAYER1);
    let mut ball = ball_at(START_X, 920_000, MAX_BALL_SPEED, MAX_BALL_SPEED);
    ball.handle_collision(&one);
    assert_eq!(ball.get_velocity(), (0, -MAX_BALL_SPEED));
    let mut ball = ball_at(START_X, 920_000, 0, 0);
    ball.handle_collision(&one);
    assert_eq!(ball.get_velocity(), (0, 0));
}

#[test]
fn a_deflected_ball_lies_outside_the_paddle_and_on_the_field_whatever_the_row() {
    let mut row = 0;
    while row <= ONE {
        for start in [FIELD_MIN, row - 3_000, row, row + 3_000, FIELD_MAX] {
            let p = paddle(PlayerId::Player1, START_X, row);
            let mut ball = ball_at(START_X, start, 0, 5_000);
            let came_from_above = ball.get_position().1 < row;
            ball.handle_collision(&p);
            let y = ball.get_position().1;
            assert!((y - row).abs() > HALF_HEIGHT + BALL_RADIUS, "row {} ball {}", row, y);
            assert!((FIELD_MIN..=FIELD_MAX).contains(&y), "row {} ball {}", row, y);
            assert_eq!((y - row).abs(), CLEARANCE);
            if row - CLEARANCE >= FIELD_MIN && row + CLEARANCE <= FIELD_MAX {
                assert_eq!(y < row, came_from_above);
            }
        }
        row += 4_093;
    }
}

#[test]
fn beside_a_goal_line_the_ball_is_put_on_the_side_that_has_room() {
    // no room between this paddle and the top goal line
    let p = paddle(PlayerId::Player2, START_X, 15_000);
    let mut ball = ball_at(START_X, 12_000, 0, 5_000);
    ball.handle_collision(&p);
    assert_eq!(ball.get_position(), (START_X, 15_000 + CLEARANCE));
    assert_eq!(CLEARANCE, 19_243);
    // no room between this paddle and the bottom goal line
    let p = paddle(PlayerId::Player1, START_X, FIELD_MAX);
    let mut ball = ball_at(START_X, FIELD_MAX, 0, 5_000);
    ball.handle_collision(&p);
    assert_eq!(ball.get_position(), (START_X, FIELD_MAX - CLEARANCE));
    // room on the side the ball came from
    let p = paddle(PlayerId::Player2, START_X, 0);
    let mut ball = ball_at(START_X, FIELD_MIN, 0, -5_000);
    ball.handle_collision(&p);
    assert_eq!(ball.get_position(), (START_X, CLEARANCE));
}

#[test]
fn the_slowest_ball_is_still_sent_back() {
    let p = paddle(PlayerId::Player1, START_X, ROW_PLAYER1);
    // at the end of the paddle the cosine halves a speed of one unit to nothing
    let mut ball = ball_at(START_X + HALF_WIDTH, 920_000, 0, 1);
    ball.handle_collision(&p);
    assert_eq!(ball.get_velocity(), (0, -1));
    let mut ball = ball_at(START_X - HALF_WIDTH, 920_000, 0, -1);
    ball.handle_collision(&p);
    assert_eq!(ball.get_velocity(), (0, 1));
    let mut ball = ball_at(START_X, 920_000, 0, 1);
    ball.handle_collision(&p);
    assert_eq!(ball.get_velocity(), (0, -1));
    // every vertical speed is reversed and none is lost
    for dy in [1, 2, 3, 50, 5_243, MAX_BALL_SPEED] {
        for x in [START_X - HALF_WIDTH, START_X, START_X + 20_000, START_X + HALF_WIDTH] {
            let mut ball = ball_at(x, 920_000, 0, dy);
            ball.handle_collision(&p);
            assert!(ball.get_velocity().1 < 0, "dy {} at {}", dy, x);
            let mut ball = ball_at(x, 920_000, 0, -dy);
            ball.handle_collision(&p);
            assert!(ball.get_velocity().1 > 0, "dy {} at {}", -dy, x);
        }
    }
}

#[test]
fn a_paddle_out_of_the_way_is_not_hit() {
    let one = paddle(PlayerId::Player1, 100_000, ROW_PLAYER1);
    let mut ball = ball_at(900_000, 920_000, 0, 10_486);
    assert!(!ball.check_collision(900_000, 930_486, &one));
    ball.update_position(&vec![one]);
    assert_eq!(ball.get_position(), (900_000, 930_486));
    assert_eq!(ball.get_velocity(), (0, 10_486));
}

#[test]
fn a_fast_ball_does_not_pass_through_a_paddle() {
    let one = paddle(PlayerId::Player1, START_X, ROW_PLAYER1);
    let mut ball = ball_at(START_X, ROW_PLAYER1 - 8_756 - BALL_RADIUS - 12_000, 0, MAX_BALL_SPEED);
    ball.update_position(&vec![one]);
    assert!(ball.get_velocity().1 < 0);
    assert!(ball.get_position().1 < ROW_PLAYER1 - 8_756 - BALL_RADIUS);
}

#[test]
fn the_ball_stays_on_the_field_through_many_ticks() {
    let paddles = vec![
        paddle(PlayerId::Player1, START_X, ROW_PLAYER1),
        paddle(PlayerId::Player2, START_X, ROW_PLAYER2),
    ];
    let mut ball = ball_at(CENTER, CENTER, 13_001, -9_973);
    for _ in 0..5_000 {
        ball.update_position(&paddles);
        if ball.collides_with_wall() {
            ball.bounce_off_wall();
            if ball.which_wall() == Wall::Top || ball.which_wall() == Wall::Bottom {
                let (dx, dy) = ball.get_velocity();
                ball.set_velocity(dx, -dy);
            }
        }
        let (x, y) = ball.get_position();
        assert!((FIELD_MIN..=FIELD_MAX).contains(&x) && (FIELD_MIN..=FIELD_MAX).contains(&y));
        let (dx, dy) = ball.get_velocity();
        assert!(dx.abs() <= MAX_BALL_SPEED && dy.abs() <= MAX_BALL_SPEED);
    }
}
