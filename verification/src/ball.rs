//! The ball: sub-stepped motion, paddle deflection, walls and serve.
//!
//! The ball's velocity is its displacement per tick. A tick is cut into
//! sub-steps no longer than the ball's radius, so the ball cannot pass
//! through a paddle between two tests.

use vstd::prelude::*;
use crate::fixed::{
    ONE, PI_SIXTH, PI_THIRD, abs, clamp, cos, div_trunc, isqrt, sin, spec_abs, spec_clamp,
    spec_cos, spec_div_trunc, spec_isqrt, spec_sin, lemma_isqrt_exists, lemma_sin_at_most_angle,
    lemma_trig_bounds,
};
use crate::player::Player;
use crate::random::{random_byte, random_in_range};

verus! {

/// Radius of the ball.
pub const BALL_RADIUS: i64 = 10_486;

/// Largest speed of the ball per tick: twice its radius.
pub const MAX_BALL_SPEED: i64 = 2 * BALL_RADIUS;

/// Speed of a served ball per tick.
pub const INITIAL_BALL_SPEED: i64 = 5_243;

/// Smallest coordinate the ball's centre can have.
pub const FIELD_MIN: i64 = BALL_RADIUS;

/// Largest coordinate the ball's centre can have.
pub const FIELD_MAX: i64 = ONE - BALL_RADIUS;

/// The centre of the field.
pub const CENTER: i64 = 524_288;

/// Half the extent of a paddle along its axis of travel.
pub const HALF_WIDTH: i64 = 65_536;

/// Half the extent of a paddle across its axis of travel.
pub const HALF_HEIGHT: i64 = 8_756;

/// The gap left between ball and paddle after a deflection.
pub const GAP: i64 = 1;

/// The distance between a paddle's row and the centre of a ball that has
/// just been deflected: far enough for the ball to lie outside the paddle.
pub const CLEARANCE: i64 = HALF_HEIGHT + BALL_RADIUS + GAP;

/// An edge of the field.
#[derive(Debug, PartialEq, Eq, Structural, Copy, Clone)]
pub enum Wall {
    /// The goal line at `y = 0`, defended by player 2.
    Top,
    /// The goal line at `y = ONE`, defended by player 1.
    Bottom,
    /// The side wall at `x = 0`.
    Left,
    /// The side wall at `x = ONE`.
    Right,
    /// The ball touches no edge.
    Clear,
}

/// Mathematical value of a [`Ball`]: centre and displacement per tick.
pub struct BallState {
    pub x: int,
    pub y: int,
    pub dx: int,
    pub dy: int,
}

/// The ball lies on the field, a radius away from every edge, and is no
/// faster than `MAX_BALL_SPEED` along either axis.
pub open spec fn spec_ball_wf(b: BallState) -> bool {
    &&& FIELD_MIN <= b.x <= FIELD_MAX
    &&& FIELD_MIN <= b.y <= FIELD_MAX
    &&& -MAX_BALL_SPEED <= b.dx <= MAX_BALL_SPEED
    &&& -MAX_BALL_SPEED <= b.dy <= MAX_BALL_SPEED
}

/// The number of sub-steps of a tick: the larger velocity component divided
/// by the radius, rounded up. A ball at rest takes none.
pub open spec fn spec_steps(dx: int, dy: int) -> int {
    let m = if spec_abs(dx) > spec_abs(dy) {
        spec_abs(dx)
    } else {
        spec_abs(dy)
    };
    (m + BALL_RADIUS - 1) / (BALL_RADIUS as int)
}

/// Whether the ball, moving from its centre to `(nx, ny)`, sweeps over the
/// box of a paddle centred at `(px, py)`. A ball that does not move sweeps
/// over nothing.
pub open spec fn spec_sweeps(b: BallState, nx: int, ny: int, px: int, py: int) -> bool {
    let lo_x = if nx < b.x {
        nx
    } else {
        b.x
    };
    let hi_x = if nx < b.x {
        b.x
    } else {
        nx
    };
    let lo_y = if ny < b.y {
        ny
    } else {
        b.y
    };
    let hi_y = if ny < b.y {
        b.y
    } else {
        ny
    };
    &&& (nx != b.x || ny != b.y)
    &&& lo_x - BALL_RADIUS <= px + HALF_WIDTH
    &&& hi_x + BALL_RADIUS >= px - HALF_WIDTH
    &&& lo_y - BALL_RADIUS <= py + HALF_HEIGHT
    &&& hi_y + BALL_RADIUS >= py - HALF_HEIGHT
}

/// Where along the paddle the ball hit: `-ONE` at one end, `ONE` at the
/// other.
pub open spec fn spec_hit_offset(x: int, px: int) -> int {
    spec_clamp(spec_div_trunc((x - px) * ONE, HALF_WIDTH as int), -ONE as int, ONE as int)
}

/// The angle of deflection for a hit offset: sixty degrees at either end of
/// the paddle.
pub open spec fn spec_deflection_angle(offset: int) -> int {
    spec_div_trunc(offset * PI_THIRD, ONE as int)
}

/// The speed after a deflection: one percent more, up to `MAX_BALL_SPEED`.
pub open spec fn spec_faster(dx: int, dy: int) -> int {
    let grown = (spec_isqrt(dx * dx + dy * dy) * 101) / 100;
    if grown > MAX_BALL_SPEED {
        MAX_BALL_SPEED as int
    } else {
        grown
    }
}

/// Where a deflected ball is put: one clearance away from the paddle's row,
/// on the side the ball came from where the field has room for it there, and
/// on the other side where it has not. For a paddle on the field one of the
/// two sides always has room.
pub open spec fn spec_landing(y: int, py: int) -> int {
    if y < py {
        if py - CLEARANCE >= FIELD_MIN {
            py - CLEARANCE
        } else {
            py + CLEARANCE
        }
    } else {
        if py + CLEARANCE <= FIELD_MAX {
            py + CLEARANCE
        } else {
            py - CLEARANCE
        }
    }
}

/// The vertical speed after a deflection at `angle`: the speed scaled by the
/// cosine, and never less than one unit for a ball that was moving
/// vertically, so that such a ball keeps moving.
pub open spec fn spec_rise(speed: int, angle: int, dy: int) -> int {
    let along = (speed * spec_cos(angle)) / (ONE as int);
    if dy != 0 && along < 1 {
        1
    } else {
        along
    }
}

/// The ball after a paddle centred at `(px, py)` has deflected it: the new
/// direction follows the hit offset, the vertical direction is reversed, and
/// the ball is put outside the paddle's box.
pub open spec fn spec_deflect(b: BallState, px: int, py: int) -> BallState {
    let angle = spec_deflection_angle(spec_hit_offset(b.x, px));
    let speed = spec_faster(b.dx, b.dy);
    let rise = spec_rise(speed, angle, b.dy);
    BallState {
        x: b.x,
        y: spec_landing(b.y, py),
        dx: spec_div_trunc(speed * spec_sin(angle), ONE as int),
        dy: if b.dy < 0 {
            rise
        } else {
            -rise
        },
    }
}

/// The index of the first paddle, from index `from` on, that the ball sweeps
/// over on its way to `(nx, ny)`.
pub open spec fn spec_first_hit(b: BallState, nx: int, ny: int, paddles: Seq<Player>, from: int)
    -> Option<int>
    decreases paddles.len() - from,
{
    if from < 0 || from >= paddles.len() {
        None
    } else if spec_sweeps(
        b,
        nx,
        ny,
        paddles[from].spec_position().0 as int,
        paddles[from].spec_position().1 as int,
    ) {
        Some(from)
    } else {
        spec_first_hit(b, nx, ny, paddles, from + 1)
    }
}

/// The ball after one sub-step of `(sx, sy)`: deflected by the first paddle
/// in its way, or else moved and kept on the field.
pub open spec fn spec_substep(b: BallState, sx: int, sy: int, paddles: Seq<Player>) -> BallState {
    match spec_first_hit(b, b.x + sx, b.y + sy, paddles, 0) {
        Some(i) => spec_deflect(
            b,
            paddles[i].spec_position().0 as int,
            paddles[i].spec_position().1 as int,
        ),
        None => BallState {
            x: spec_clamp(b.x + sx, FIELD_MIN as int, FIELD_MAX as int),
            y: spec_clamp(b.y + sy, FIELD_MIN as int, FIELD_MAX as int),
            dx: b.dx,
            dy: b.dy,
        },
    }
}

/// The ball after up to `n` sub-steps of `(sx, sy)`. A deflection ends the
/// tick's motion, so the ball meets at most one paddle per tick.
pub open spec fn spec_advance(b: BallState, sx: int, sy: int, paddles: Seq<Player>, n: nat)
    -> BallState
    decreases n,
{
    if n == 0 {
        b
    } else if spec_first_hit(b, b.x + sx, b.y + sy, paddles, 0) is Some {
        spec_substep(b, sx, sy, paddles)
    } else {
        spec_advance(spec_substep(b, sx, sy, paddles), sx, sy, paddles, (n - 1) as nat)
    }
}

/// The ball after one tick.
pub open spec fn spec_update(b: BallState, paddles: Seq<Player>) -> BallState {
    let n = spec_steps(b.dx, b.dy);
    if n <= 0 {
        b
    } else {
        spec_advance(b, spec_div_trunc(b.dx, n), spec_div_trunc(b.dy, n), paddles, n as nat)
    }
}

/// The velocity of a ball served at `angle` from the vertical toward a seat:
/// toward player 1's goal line for seat number 1, toward player 2's for any
/// other number.
pub open spec fn spec_serve_velocity(serve_to_player: u8, angle: int) -> (int, int) {
    let along = (INITIAL_BALL_SPEED * spec_cos(angle)) / (ONE as int);
    (
        spec_div_trunc(INITIAL_BALL_SPEED * spec_sin(angle), ONE as int),
        if serve_to_player == 1 {
            along
        } else {
            -along
        },
    )
}

/// Whether the ball has just been served toward a seat: it is at the centre
/// and has the serve velocity of some angle within thirty degrees of the
/// vertical.
pub open spec fn spec_served_to(b: BallState, serve_to_player: u8) -> bool {
    &&& b.x == CENTER
    &&& b.y == CENTER
    &&& spec_serve_velocity_of(b, serve_to_player)
}

/// Whether the ball's velocity is a serve velocity toward a seat, for some
/// angle within thirty degrees of the vertical.
pub open spec fn spec_serve_velocity_of(b: BallState, serve_to_player: u8) -> bool {
    exists|angle: int|
        -PI_SIXTH <= angle < PI_SIXTH && (b.dx, b.dy) == #[trigger] spec_serve_velocity(
            serve_to_player,
            angle,
        )
}

/// Whether the ball has just been served toward one of the seats.
pub open spec fn spec_served(b: BallState) -> bool {
    spec_served_to(b, 1) || spec_served_to(b, 2)
}

/// The edge that a ball at `(x, y)` touches; goal lines come before side
/// walls.
pub open spec fn spec_which_wall(x: int, y: int) -> Wall {
    if y <= FIELD_MIN {
        Wall::Top
    } else if y >= FIELD_MAX {
        Wall::Bottom
    } else if x <= FIELD_MIN {
        Wall::Left
    } else if x >= FIELD_MAX {
        Wall::Right
    } else {
        Wall::Clear
    }
}

/// The horizontal velocity after the side walls have had their say: while
/// the ball touches a side wall it is mirrored; anywhere else it stays.
pub open spec fn spec_bounce(x: int, dx: int) -> int {
    if x <= FIELD_MIN || x >= FIELD_MAX {
        -dx
    } else {
        dx
    }
}

/// A side wall mirrors and does no more: the speed along either axis is
/// kept, and a second reflection of a ball that has not moved gives the
/// first velocity back.
pub proof fn lemma_bounce_is_a_mirror(x: int, dx: int)
    ensures
        spec_abs(spec_bounce(x, dx)) == spec_abs(dx),
        spec_bounce(x, spec_bounce(x, dx)) == dx,
{
}

/// The velocity of a ball served at `angle` from the vertical toward a seat.
pub fn serve_velocity(serve_to_player: u8, angle: i64) -> (r: (i64, i64))
    requires
        -PI_THIRD <= angle <= PI_THIRD,
    ensures
        r.0 == spec_serve_velocity(serve_to_player, angle as int).0,
        r.1 == spec_serve_velocity(serve_to_player, angle as int).1,
        -INITIAL_BALL_SPEED <= r.0 <= INITIAL_BALL_SPEED,
        serve_to_player == 1 ==> INITIAL_BALL_SPEED / 2 <= r.1 <= INITIAL_BALL_SPEED,
        serve_to_player != 1 ==> -INITIAL_BALL_SPEED <= r.1 <= -(INITIAL_BALL_SPEED / 2),
{
    let s: i64 = sin(angle);
    let c: i64 = cos(angle);
    proof {
        lemma_scaled(INITIAL_BALL_SPEED as int, s as int);
        lemma_scaled(INITIAL_BALL_SPEED as int, c as int);
    }
    let across: i64 = div_trunc(INITIAL_BALL_SPEED * s, ONE);
    let along: i64 = (INITIAL_BALL_SPEED * c) / ONE;
    if serve_to_player == 1 {
        (across, along)
    } else {
        (across, -along)
    }
}

/// A serve within thirty degrees of the vertical goes mostly along the
/// field: across it the ball makes at most 2_745 units per tick, along it at
/// least half the serve speed and at most all of it, toward the named seat.
pub proof fn lemma_serve_bounds(serve_to_player: u8, angle: int)
    requires
        -PI_SIXTH <= angle <= PI_SIXTH,
    ensures
        -2_745 <= spec_serve_velocity(serve_to_player, angle).0 <= 2_745,
        serve_to_player == 1 ==> INITIAL_BALL_SPEED / 2 <= spec_serve_velocity(
            serve_to_player,
            angle,
        ).1 <= INITIAL_BALL_SPEED,
        serve_to_player != 1 ==> -INITIAL_BALL_SPEED <= spec_serve_velocity(
            serve_to_player,
            angle,
        ).1 <= -(INITIAL_BALL_SPEED / 2),
{
    lemma_sin_at_most_angle(angle);
    lemma_trig_bounds(angle);
    let s = spec_sin(angle);
    lemma_scaled(INITIAL_BALL_SPEED as int, s);
    lemma_scaled(INITIAL_BALL_SPEED as int, spec_cos(angle));
    assert(-INITIAL_BALL_SPEED * PI_SIXTH <= INITIAL_BALL_SPEED * s <= INITIAL_BALL_SPEED
        * PI_SIXTH) by (nonlinear_arith)
        requires
            -PI_SIXTH <= s <= PI_SIXTH,
    ;
}

/// A speed scaled by a sine or cosine is no larger than the speed, and at
/// least half of it where the factor is at least a half.
pub proof fn lemma_scaled(speed: int, factor: int)
    requires
        0 <= speed <= 2 * MAX_BALL_SPEED,
        -ONE <= factor <= ONE,
    ensures
        -speed * ONE <= speed * factor <= speed * ONE,
        -speed <= spec_div_trunc(speed * factor, ONE as int) <= speed,
        factor >= 0 ==> 0 <= (speed * factor) / (ONE as int) <= speed,
        factor >= ONE / 2 ==> (speed * factor) / (ONE as int) >= speed / 2,
        factor >= 0 ==> spec_div_trunc(speed * factor, ONE as int) >= 0,
        factor <= 0 ==> spec_div_trunc(speed * factor, ONE as int) <= 0,
{
    assert(-speed * ONE <= speed * factor <= speed * ONE) by (nonlinear_arith)
        requires
            0 <= speed,
            -ONE <= factor <= ONE,
    ;
    assert(factor >= 0 ==> speed * factor >= 0) by (nonlinear_arith)
        requires
            0 <= speed,
    ;
    assert(factor <= 0 ==> speed * factor <= 0) by (nonlinear_arith)
        requires
            0 <= speed,
    ;
    assert(factor >= 524_288 ==> speed * factor >= speed * 524_288) by (nonlinear_arith)
        requires
            0 <= speed,
    ;
}

/// The ball of a match.
#[derive(Clone, Copy, Debug)]
pub struct Ball {
    x: i64,
    y: i64,
    dx: i64,
    dy: i64,
}

impl View for Ball {
    type V = BallState;

    closed spec fn view(&self) -> BallState {
        BallState { x: self.x as int, y: self.y as int, dx: self.dx as int, dy: self.dy as int }
    }
}

impl Ball {
    /// The ball is on the field and within its speed limit.
    pub open spec fn wf(&self) -> bool {
        spec_ball_wf(self@)
    }

    /// The radius of the ball.
    pub fn radius(&self) -> (r: i64)
        ensures
            r == BALL_RADIUS,
    {
        BALL_RADIUS
    }

    /// A ball at the centre, served toward a seat chosen by chance.
    pub fn new() -> (r: Self)
        ensures
            r.wf(),
            spec_served(r@),
    {
        let mut ball = Ball { x: CENTER, y: CENTER, dx: 0, dy: 0 };
        let seat: u8 = random_byte() % 2 + 1;
        ball.reset(seat);
        ball
    }

    /// Puts the ball at the centre and serves it toward a seat at an angle
    /// chosen by chance within thirty degrees of the vertical.
    pub fn reset(&mut self, serve_to_player: u8)
        ensures
            final(self).wf(),
            spec_served_to(final(self)@, serve_to_player),
    {
        let angle: i64 = random_in_range(-PI_SIXTH, PI_SIXTH);
        self.reset_at_angle(serve_to_player, angle);
    }

    /// Puts the ball at the centre and serves it toward a seat at `angle`
    /// from the vertical.
    pub fn reset_at_angle(&mut self, serve_to_player: u8, angle: i64)
        requires
            -PI_THIRD <= angle <= PI_THIRD,
        ensures
            final(self).wf(),
            final(self)@.x == CENTER,
            final(self)@.y == CENTER,
            (final(self)@.dx, final(self)@.dy) == spec_serve_velocity(serve_to_player, angle as int),
    {
        let v = serve_velocity(serve_to_player, angle);
        self.x = CENTER;
        self.y = CENTER;
        self.dx = v.0;
        self.dy = v.1;
    }

    /// Gives the ball a fresh serve velocity toward a seat, at an angle
    /// chosen by chance, and leaves it where it is.
    pub fn reset_velocity(&mut self, serve_to_player: u8)
        requires
            old(self).wf(),
        ensures
            final(self).wf(),
            final(self)@.x == old(self)@.x,
            final(self)@.y == old(self)@.y,
            spec_serve_velocity_of(final(self)@, serve_to_player),
    {
        let angle: i64 = random_in_range(-PI_SIXTH, PI_SIXTH);
        let v = serve_velocity(serve_to_player, angle);
        self.dx = v.0;
        self.dy = v.1;
    }

    /// Puts the ball at `(x, y)`, kept a radius away from every edge.
    pub fn set_position(&mut self, x: i64, y: i64)
        ensures
            final(self)@.x == spec_clamp(x as int, FIELD_MIN as int, FIELD_MAX as int),
            final(self)@.y == spec_clamp(y as int, FIELD_MIN as int, FIELD_MAX as int),
            final(self)@.dx == old(self)@.dx,
            final(self)@.dy == old(self)@.dy,
            old(self).wf() ==> final(self).wf(),
    {
        self.x = clamp(x, FIELD_MIN, FIELD_MAX);
        self.y = clamp(y, FIELD_MIN, FIELD_MAX);
    }

    /// Gives the ball the velocity `(dx, dy)`, each component limited to
    /// `MAX_BALL_SPEED`.
    pub fn set_velocity(&mut self, dx: i64, dy: i64)
        ensures
            final(self)@.dx == spec_clamp(dx as int, -MAX_BALL_SPEED as int, MAX_BALL_SPEED as int),
            final(self)@.dy == spec_clamp(dy as int, -MAX_BALL_SPEED as int, MAX_BALL_SPEED as int),
            final(self)@.x == old(self)@.x,
            final(self)@.y == old(self)@.y,
            old(self).wf() ==> final(self).wf(),
    {
        self.dx = clamp(dx, -MAX_BALL_SPEED, MAX_BALL_SPEED);
        self.dy = clamp(dy, -MAX_BALL_SPEED, MAX_BALL_SPEED);
    }

    pub fn get_position(&self) -> (r: (i64, i64))
        ensures
            r.0 == self@.x,
            r.1 == self@.y,
    {
        (self.x, self.y)
    }

    pub fn get_velocity(&self) -> (r: (i64, i64))
        ensures
            r.0 == self@.dx,
            r.1 == self@.dy,
    {
        (self.dx, self.dy)
    }

    /// Whether the ball, moving from its centre to `(new_x, new_y)`, sweeps
    /// over the paddle of `player`.
    pub fn check_collision(&self, new_x: i64, new_y: i64, player: &Player) -> (r: bool)
        requires
            self.wf(),
            player.wf(),
        ensures
            r == spec_sweeps(
                self@,
                new_x as int,
                new_y as int,
                player.spec_position().0 as int,
                player.spec_position().1 as int,
            ),
    {
        let p = player.get_position();
        let px: i128 = p.0 as i128;
        let py: i128 = p.1 as i128;
        let x: i128 = self.x as i128;
        let y: i128 = self.y as i128;
        let nx: i128 = new_x as i128;
        let ny: i128 = new_y as i128;
        let r: i128 = BALL_RADIUS as i128;
        let lo_x: i128 = if nx < x {
            nx
        } else {
            x
        };
        let hi_x: i128 = if nx < x {
            x
        } else {
            nx
        };
        let lo_y: i128 = if ny < y {
            ny
        } else {
            y
        };
        let hi_y: i128 = if ny < y {
            y
        } else {
            ny
        };
        (nx != x || ny != y) && lo_x - r <= px + (HALF_WIDTH as i128) && hi_x + r >= px - (
        HALF_WIDTH as i128) && lo_y - r <= py + (HALF_HEIGHT as i128) && hi_y + r >= py - (
        HALF_HEIGHT as i128)
    }

    /// Deflects the ball off the paddle of `player`: the ball leaves at an
    /// angle set by where it hit, one percent faster up to the speed limit,
    /// with its vertical direction reversed, and from a place strictly
    /// outside the paddle's box and on the field.
    pub fn handle_collision(&mut self, player: &Player)
        requires
            old(self).wf(),
            player.wf(),
        ensures
            final(self).wf(),
            final(self)@ == spec_deflect(
                old(self)@,
                player.spec_position().0 as int,
                player.spec_position().1 as int,
            ),
            final(self)@.x == old(self)@.x,
            spec_abs(final(self)@.y - player.spec_position().1) > HALF_HEIGHT + BALL_RADIUS,
            spec_abs(final(self)@.dx) <= spec_faster(old(self)@.dx, old(self)@.dy),
            spec_faster(old(self)@.dx, old(self)@.dy) / 2 <= spec_abs(final(self)@.dy)
                <= spec_faster(old(self)@.dx, old(self)@.dy),
            old(self)@.dy > 0 ==> final(self)@.dy < 0,
            old(self)@.dy < 0 ==> final(self)@.dy > 0,
            old(self)@.dy == 0 ==> final(self)@.dy <= 0,
    {
        let p = player.get_position();
        let px: i64 = p.0;
        let py: i64 = p.1;
        let offset: i64 = clamp(div_trunc((self.x - px) * ONE, HALF_WIDTH), -ONE, ONE);
        proof {
            assert(-ONE * PI_THIRD <= offset * PI_THIRD <= ONE * PI_THIRD) by (nonlinear_arith)
                requires
                    -ONE <= offset <= ONE,
            ;
        }
        let angle: i64 = div_trunc(offset * PI_THIRD, ONE);
        let dx: i64 = self.dx;
        let dy: i64 = self.dy;
        proof {
            assert(0 <= dx * dx <= MAX_BALL_SPEED * MAX_BALL_SPEED) by (nonlinear_arith)
                requires
                    -MAX_BALL_SPEED <= dx <= MAX_BALL_SPEED,
            ;
            assert(0 <= dy * dy <= MAX_BALL_SPEED * MAX_BALL_SPEED) by (nonlinear_arith)
                requires
                    -MAX_BALL_SPEED <= dy <= MAX_BALL_SPEED,
            ;
        }
        let norm2: u64 = (dx * dx + dy * dy) as u64;
        let root: u64 = isqrt(norm2);
        proof {
            assert(root <= 2 * MAX_BALL_SPEED) by (nonlinear_arith)
                requires
                    root * root <= 2 * (MAX_BALL_SPEED * MAX_BALL_SPEED),
                    0 <= root,
            ;
        }
        let grown: i64 = ((root * 101) / 100) as i64;
        let speed: i64 = if grown > MAX_BALL_SPEED {
            MAX_BALL_SPEED
        } else {
            grown
        };
        let s: i64 = sin(angle);
        let c: i64 = cos(angle);
        proof {
            lemma_scaled(speed as int, s as int);
            lemma_scaled(speed as int, c as int);
        }
        proof {
            lemma_faster_bounds(dx as int, dy as int);
        }
        let across: i64 = div_trunc(speed * s, ONE);
        let along: i64 = (speed * c) / ONE;
        let rise: i64 = if dy != 0 && along < 1 {
            1
        } else {
            along
        };
        self.y = if self.y < py {
            if py - CLEARANCE >= FIELD_MIN {
                py - CLEARANCE
            } else {
                py + CLEARANCE
            }
        } else {
            if py + CLEARANCE <= FIELD_MAX {
                py + CLEARANCE
            } else {
                py - CLEARANCE
            }
        };
        self.dx = across;
        self.dy = if dy < 0 {
            rise
        } else {
            -rise
        };
    }

    /// Moves the ball through one tick in sub-steps no longer than its
    /// radius. Before each sub-step is committed the paddles are tested in
    /// order; the first one in the way deflects the ball and ends the tick's
    /// motion. A ball at rest does not move and meets nothing.
    pub fn update_position(&mut self, players: &Vec<Player>)
        requires
            old(self).wf(),
            forall|i: int| 0 <= i < players@.len() ==> (#[trigger] players@[i]).wf(),
        ensures
            final(self).wf(),
            final(self)@ == spec_update(old(self)@, players@),
    {
        let adx: i64 = abs(self.dx);
        let ady: i64 = abs(self.dy);
        let m: i64 = if adx > ady {
            adx
        } else {
            ady
        };
        let steps: i64 = (m + BALL_RADIUS - 1) / BALL_RADIUS;
        if steps <= 0 {
            return ;
        }
        let step_x: i64 = div_trunc(self.dx, steps);
        let step_y: i64 = div_trunc(self.dy, steps);
        let mut k: i64 = 0;
        let mut deflected: bool = false;
        while k < steps && !deflected
            invariant
                0 <= k <= steps <= 2,
                self.wf(),
                -MAX_BALL_SPEED <= step_x <= MAX_BALL_SPEED,
                -MAX_BALL_SPEED <= step_y <= MAX_BALL_SPEED,
                forall|i: int| 0 <= i < players@.len() ==> (#[trigger] players@[i]).wf(),
                deflected ==> self@ == spec_update(old(self)@, players@),
                !deflected ==> spec_advance(
                    self@,
                    step_x as int,
                    step_y as int,
                    players@,
                    (steps - k) as nat,
                ) == spec_update(old(self)@, players@),
            decreases
                (steps - k) + (if deflected {
                    0int
                } else {
                    1int
                }),
        {
            let new_x: i64 = self.x + step_x;
            let new_y: i64 = self.y + step_y;
            let ghost before = self@;
            let mut i: usize = 0;
            while i < players.len() && !deflected
                invariant
                    0 <= i <= players@.len(),
                    self.wf(),
                    forall|j: int| 0 <= j < players@.len() ==> (#[trigger] players@[j]).wf(),
                    !deflected ==> self@ == before,
                    !deflected ==> spec_first_hit(
                        before,
                        new_x as int,
                        new_y as int,
                        players@,
                        i as int,
                    ) == spec_first_hit(before, new_x as int, new_y as int, players@, 0),
                    deflected ==> spec_first_hit(before, new_x as int, new_y as int, players@, 0)
                        is Some,
                    deflected ==> self@ == spec_substep(
                        before,
                        step_x as int,
                        step_y as int,
                        players@,
                    ),
                    new_x == before.x + step_x,
                    new_y == before.y + step_y,
                decreases
                    (players@.len() - i) + (if deflected {
                        0int
                    } else {
                        1int
                    }),
            {
                if self.check_collision(new_x, new_y, &players[i]) {
                    self.handle_collision(&players[i]);
                    deflected = true;
                } else {
                    i = i + 1;
                }
            }
            if !deflected {
                self.x = clamp(new_x, FIELD_MIN, FIELD_MAX);
                self.y = clamp(new_y, FIELD_MIN, FIELD_MAX);
                k = k + 1;
            }
        }
    }

    /// Mirrors the horizontal velocity of a ball that touches a side wall.
    pub fn bounce_off_wall(&mut self)
        requires
            old(self).wf(),
        ensures
            final(self).wf(),
            final(self)@.dx == spec_bounce(old(self)@.x, old(self)@.dx),
            final(self)@.dy == old(self)@.dy,
            final(self)@.x == old(self)@.x,
            final(self)@.y == old(self)@.y,
    {
        if self.x <= FIELD_MIN || self.x >= FIELD_MAX {
            self.dx = -self.dx;
        }
    }

    /// Whether the ball touches an edge of the field.
    pub fn collides_with_wall(&self) -> (r: bool)
        ensures
            r == (spec_which_wall(self@.x, self@.y) != Wall::Clear),
    {
        self.x <= FIELD_MIN || self.x >= FIELD_MAX || self.y <= FIELD_MIN || self.y >= FIELD_MAX
    }

    /// The edge that the ball touches; goal lines come before side walls.
    pub fn which_wall(&self) -> (r: Wall)
        ensures
            r == spec_which_wall(self@.x, self@.y),
    {
        if self.y <= FIELD_MIN {
            Wall::Top
        } else if self.y >= FIELD_MAX {
            Wall::Bottom
        } else if self.x <= FIELD_MIN {
            Wall::Left
        } else if self.x >= FIELD_MAX {
            Wall::Right
        } else {
            Wall::Clear
        }
    }
}

/// No sub-step is longer than the ball's radius along either axis, so the
/// ball cannot jump over a paddle between two tests.
pub proof fn lemma_substep_within_radius(dx: int, dy: int)
    requires
        spec_steps(dx, dy) > 0,
    ensures
        spec_abs(spec_div_trunc(dx, spec_steps(dx, dy))) <= BALL_RADIUS,
        spec_abs(spec_div_trunc(dy, spec_steps(dx, dy))) <= BALL_RADIUS,
{
    let n = spec_steps(dx, dy);
    let ax = spec_abs(dx);
    let ay = spec_abs(dy);
    assert(ax <= n * BALL_RADIUS && ay <= n * BALL_RADIUS);
    assert(ax / n <= BALL_RADIUS) by (nonlinear_arith)
        requires
            0 <= ax <= n * BALL_RADIUS,
            n > 0,
    ;
    assert(ay / n <= BALL_RADIUS) by (nonlinear_arith)
        requires
            0 <= ay <= n * BALL_RADIUS,
            n > 0,
    ;
    assert(ax / n >= 0 && ay / n >= 0) by (nonlinear_arith)
        requires
            0 <= ax,
            0 <= ay,
            n > 0,
    ;
}

/// A ball deflected by a paddle on the field lies strictly outside the
/// paddle's box and on the field, so the same paddle cannot be met again
/// from where the ball is put. The ball is put on the side it came from
/// wherever the field has room for it there.
pub proof fn lemma_deflect_clears_paddle(b: BallState, px: int, py: int)
    requires
        0 <= py <= ONE,
    ensures
        spec_abs(spec_deflect(b, px, py).y - py) > HALF_HEIGHT + BALL_RADIUS,
        FIELD_MIN <= spec_deflect(b, px, py).y <= FIELD_MAX,
        b.y < py && py - CLEARANCE >= FIELD_MIN ==> spec_deflect(b, px, py).y < py,
        b.y >= py && py + CLEARANCE <= FIELD_MAX ==> spec_deflect(b, px, py).y > py,
{
}

/// A deflection reverses the vertical direction of a ball that was moving
/// vertically: the ball never comes to rest on a paddle.
pub proof fn lemma_deflect_reverses(b: BallState, px: int, py: int)
    requires
        spec_ball_wf(b),
    ensures
        b.dy > 0 ==> spec_deflect(b, px, py).dy < 0,
        b.dy < 0 ==> spec_deflect(b, px, py).dy > 0,
{
    lemma_deflect_speeds(b, px);
}

/// Whatever the paddles, a tick leaves the ball's centre at least a radius
/// away from every edge of the field, and within its speed limit.
pub proof fn lemma_update_stays_on_field(b: BallState, paddles: Seq<Player>)
    requires
        spec_ball_wf(b),
        forall|i: int| 0 <= i < paddles.len() ==> (#[trigger] paddles[i]).wf(),
    ensures
        spec_ball_wf(spec_update(b, paddles)),
{
    let n = spec_steps(b.dx, b.dy);
    if n > 0 {
        lemma_advance_stays_on_field(
            b,
            spec_div_trunc(b.dx, n),
            spec_div_trunc(b.dy, n),
            paddles,
            n as nat,
        );
    }
}

/// Whatever the step and the paddles, sub-steps leave the ball on the field.
pub proof fn lemma_advance_stays_on_field(
    b: BallState,
    sx: int,
    sy: int,
    paddles: Seq<Player>,
    n: nat,
)
    requires
        spec_ball_wf(b),
        forall|i: int| 0 <= i < paddles.len() ==> (#[trigger] paddles[i]).wf(),
    ensures
        spec_ball_wf(spec_advance(b, sx, sy, paddles, n)),
    decreases n,
{
    if n > 0 {
        lemma_substep_stays_on_field(b, sx, sy, paddles);
        if !(spec_first_hit(b, b.x + sx, b.y + sy, paddles, 0) is Some) {
            lemma_advance_stays_on_field(
                spec_substep(b, sx, sy, paddles),
                sx,
                sy,
                paddles,
                (n - 1) as nat,
            );
        }
    }
}

/// One sub-step leaves the ball on the field.
pub proof fn lemma_substep_stays_on_field(b: BallState, sx: int, sy: int, paddles: Seq<Player>)
    requires
        spec_ball_wf(b),
        forall|i: int| 0 <= i < paddles.len() ==> (#[trigger] paddles[i]).wf(),
    ensures
        spec_ball_wf(spec_substep(b, sx, sy, paddles)),
{
    match spec_first_hit(b, b.x + sx, b.y + sy, paddles, 0) {
        Some(i) => {
            lemma_first_hit_in_range(b, b.x + sx, b.y + sy, paddles, 0);
            lemma_deflect_stays_on_field(
                b,
                paddles[i].spec_position().0 as int,
                paddles[i].spec_position().1 as int,
            );
        },
        None => {},
    }
}

/// The first paddle hit is one of the paddles, and the ball sweeps over it.
pub proof fn lemma_first_hit_in_range(
    b: BallState,
    nx: int,
    ny: int,
    paddles: Seq<Player>,
    from: int,
)
    requires
        0 <= from,
    ensures
        match spec_first_hit(b, nx, ny, paddles, from) {
            Some(i) => from <= i < paddles.len() && spec_sweeps(
                b,
                nx,
                ny,
                paddles[i].spec_position().0 as int,
                paddles[i].spec_position().1 as int,
            ),
            None => true,
        },
    decreases paddles.len() - from,
{
    if from < paddles.len() {
        lemma_first_hit_in_range(b, nx, ny, paddles, from + 1);
    }
}

/// A deflection by a paddle on the field leaves the ball on the field and
/// within its speed limit.
pub proof fn lemma_deflect_stays_on_field(b: BallState, px: int, py: int)
    requires
        spec_ball_wf(b),
        0 <= py <= ONE,
    ensures
        spec_ball_wf(spec_deflect(b, px, py)),
{
    lemma_deflect_speeds(b, px);
}

/// The two components of the velocity after a deflection: neither is larger
/// than the new speed, and the vertical one is at least half of it.
pub proof fn lemma_deflect_speeds(b: BallState, px: int)
    ensures
        ({
            let angle = spec_deflection_angle(spec_hit_offset(b.x, px));
            let speed = spec_faster(b.dx, b.dy);
            &&& -PI_THIRD <= angle <= PI_THIRD
            &&& 0 <= speed <= MAX_BALL_SPEED
            &&& -speed <= spec_div_trunc(speed * spec_sin(angle), ONE as int) <= speed
            &&& speed / 2 <= (speed * spec_cos(angle)) / (ONE as int) <= speed
            &&& 0 <= spec_rise(speed, angle, b.dy) <= MAX_BALL_SPEED
            &&& b.dy != 0 ==> 1 <= spec_rise(speed, angle, b.dy) <= speed
            &&& speed / 2 <= spec_rise(speed, angle, b.dy)
        }),
{
    let offset = spec_hit_offset(b.x, px);
    assert(-ONE * PI_THIRD <= offset * PI_THIRD <= ONE * PI_THIRD) by (nonlinear_arith)
        requires
            -ONE <= offset <= ONE,
    ;
    let angle = spec_deflection_angle(offset);
    let speed = spec_faster(b.dx, b.dy);
    lemma_faster_bounds(b.dx, b.dy);
    lemma_trig_bounds(angle);
    lemma_scaled(speed, spec_sin(angle));
    lemma_scaled(speed, spec_cos(angle));
}

/// The speed after a deflection lies between nothing and `MAX_BALL_SPEED`,
/// and a ball that was moving is still moving.
pub proof fn lemma_faster_bounds(dx: int, dy: int)
    ensures
        0 <= spec_faster(dx, dy) <= MAX_BALL_SPEED,
        dx != 0 || dy != 0 ==> spec_faster(dx, dy) >= 1,
{
    assert(dx * dx >= 0) by (nonlinear_arith);
    assert(dy * dy >= 0) by (nonlinear_arith);
    assert(dx != 0 ==> dx * dx >= 1) by (nonlinear_arith);
    assert(dy != 0 ==> dy * dy >= 1) by (nonlinear_arith);
    lemma_isqrt_exists(dx * dx + dy * dy);
}

} // verus!
