//! A seated player and the paddle it steers.
//!
//! A paddle travels along the x axis of its row; `Up` pushes it toward larger
//! x, `Down` toward smaller x. Player 1 defends the row near `y = ONE`,
//! player 2 the row near `y = 0`.

use vstd::prelude::*;
use crate::address::NetAddr;
use crate::fixed::{ONE, abs, clamp, div_trunc, spec_abs, spec_clamp, spec_div_trunc, spec_sign};
use crate::model::{Movement, PlayerId};

verus! {

/// Extent of a paddle along its axis of travel: an eighth of the field.
pub const PLAYER_WIDTH: i64 = 131_072;

/// Extent of a paddle across its axis of travel.
pub const PLAYER_HEIGHT: i64 = 17_512;

/// Largest paddle speed, in units per second.
pub const MAX_SPEED: i64 = 209_715;

/// Speed gained by one movement command, in units per second.
pub const ACCELERATION: i64 = 20_972;

/// Speed lost per second while the paddle coasts.
pub const DECELERATION: i64 = 262_144;

/// Smallest x a paddle's centre can travel to.
pub const TRAVEL_MIN: i64 = 65_536;

/// Largest x a paddle's centre can travel to.
pub const TRAVEL_MAX: i64 = ONE - TRAVEL_MIN;

/// The x at which both paddles start a match.
pub const START_X: i64 = 524_288;

/// The row of player 1's paddle.
pub const ROW_PLAYER1: i64 = 943_718;

/// The row of player 2's paddle.
pub const ROW_PLAYER2: i64 = 104_858;

/// The velocity after one movement command.
pub open spec fn spec_accelerate(velocity: int, movement: Movement) -> int {
    match movement {
        Movement::Up => if velocity + ACCELERATION > MAX_SPEED {
            MAX_SPEED as int
        } else {
            velocity + ACCELERATION
        },
        Movement::Down => if velocity - ACCELERATION < -MAX_SPEED {
            -MAX_SPEED as int
        } else {
            velocity - ACCELERATION
        },
        Movement::Stop => 0,
    }
}

/// The distance covered at `velocity` in `dt_ms` milliseconds.
pub open spec fn spec_displacement(velocity: int, dt_ms: int) -> int {
    spec_div_trunc(velocity * dt_ms, 1000)
}

/// The x of a paddle after `dt_ms` milliseconds at `velocity`.
pub open spec fn spec_travel(x: int, velocity: int, dt_ms: int) -> int {
    spec_clamp(x + spec_displacement(velocity, dt_ms), TRAVEL_MIN as int, TRAVEL_MAX as int)
}

/// The velocity of a coasting paddle after `dt_ms` milliseconds.
pub open spec fn spec_decay(velocity: int, dt_ms: int) -> int {
    let loss = (DECELERATION * dt_ms) / 1000;
    if spec_abs(velocity) > loss {
        velocity - spec_sign(velocity) * loss
    } else {
        0
    }
}

/// Where the paddle of a seat stands when a match starts.
pub open spec fn spec_start_position(id: PlayerId) -> (i64, i64) {
    match id {
        PlayerId::Player1 => (START_X, ROW_PLAYER1),
        PlayerId::Player2 => (START_X, ROW_PLAYER2),
    }
}

/// Where the paddle of a seat stands when a match starts.
pub fn start_position(id: PlayerId) -> (r: (i64, i64))
    ensures
        r == spec_start_position(id),
{
    match id {
        PlayerId::Player1 => (START_X, ROW_PLAYER1),
        PlayerId::Player2 => (START_X, ROW_PLAYER2),
    }
}

/// A seated player: seat, endpoint, paddle position and paddle velocity.
#[derive(Clone, Copy, Debug)]
pub struct Player {
    id: PlayerId,
    position: (i64, i64),
    velocity: i64,
    addr: NetAddr,
}

impl Player {
    pub closed spec fn spec_id(&self) -> PlayerId {
        self.id
    }

    pub closed spec fn spec_addr(&self) -> NetAddr {
        self.addr
    }

    pub closed spec fn spec_position(&self) -> (i64, i64) {
        self.position
    }

    pub closed spec fn spec_velocity(&self) -> i64 {
        self.velocity
    }

    /// The paddle lies on the field and is no faster than `MAX_SPEED`.
    pub open spec fn wf(&self) -> bool {
        &&& 0 <= self.spec_position().0 <= ONE
        &&& 0 <= self.spec_position().1 <= ONE
        &&& -MAX_SPEED <= self.spec_velocity() <= MAX_SPEED
    }

    /// A player at rest in the corner of the field.
    pub closed spec fn spec_new(id: PlayerId, addr: NetAddr) -> Player {
        Player { id, position: (0, 0), velocity: 0, addr }
    }

    /// The same player with its paddle at `position`.
    pub closed spec fn spec_moved_to(self, position: (i64, i64)) -> Player {
        Player { position, ..self }
    }

    /// The same player with its paddle moving at `velocity`.
    pub closed spec fn spec_with_velocity(self, velocity: i64) -> Player {
        Player { velocity, ..self }
    }

    /// A player at rest in the corner of the field.
    pub fn new(id: PlayerId, addr: NetAddr) -> (r: Self)
        ensures
            r == Self::spec_new(id, addr),
            r.wf(),
            r.spec_id() == id,
            r.spec_addr() == addr,
            r.spec_position() == (0i64, 0i64),
            r.spec_velocity() == 0,
    {
        Player { id, position: (0, 0), velocity: 0, addr }
    }

    pub fn get_addr(&self) -> (r: NetAddr)
        ensures
            r == self.spec_addr(),
    {
        self.addr
    }

    pub fn get_id(&self) -> (r: PlayerId)
        ensures
            r == self.spec_id(),
    {
        self.id
    }

    pub fn get_position(&self) -> (r: (i64, i64))
        ensures
            r == self.spec_position(),
    {
        self.position
    }

    pub fn get_velocity(&self) -> (r: i64)
        ensures
            r == self.spec_velocity(),
    {
        self.velocity
    }

    /// Puts the paddle at `(x, y)`, each coordinate limited to the field.
    pub fn set_position(&mut self, x: i64, y: i64)
        ensures
            *final(self) == old(self).spec_moved_to(
                (
                    spec_clamp(x as int, 0, ONE as int) as i64,
                    spec_clamp(y as int, 0, ONE as int) as i64,
                ),
            ),
            final(self).spec_position().0 == spec_clamp(x as int, 0, ONE as int),
            final(self).spec_position().1 == spec_clamp(y as int, 0, ONE as int),
            final(self).spec_velocity() == old(self).spec_velocity(),
            final(self).spec_id() == old(self).spec_id(),
            final(self).spec_addr() == old(self).spec_addr(),
            old(self).wf() ==> final(self).wf(),
    {
        self.position = (clamp(x, 0, ONE), clamp(y, 0, ONE));
    }

    /// Advances the paddle by `dt_ms` milliseconds: it travels at its
    /// velocity, stops at the ends of its range, and loses speed.
    pub fn update_position(&mut self, dt_ms: u32)
        requires
            old(self).wf(),
        ensures
            final(self).wf(),
            *final(self) == old(self).spec_ticked(dt_ms),
            final(self).spec_position().0 == spec_travel(
                old(self).spec_position().0 as int,
                old(self).spec_velocity() as int,
                dt_ms as int,
            ),
            final(self).spec_position().1 == old(self).spec_position().1,
            final(self).spec_velocity() == spec_decay(old(self).spec_velocity() as int, dt_ms as int),
            final(self).spec_id() == old(self).spec_id(),
            final(self).spec_addr() == old(self).spec_addr(),
            TRAVEL_MIN <= final(self).spec_position().0 <= TRAVEL_MAX,
    {
        let dt: i64 = dt_ms as i64;
        let v: i64 = self.velocity;
        proof {
            lemma_product_bounds(v as int, dt as int);
        }
        let moved: i64 = div_trunc(v * dt, 1000);
        let x: i64 = self.position.0;
        self.position.0 = clamp(x + moved, TRAVEL_MIN, TRAVEL_MAX);
        let loss: i64 = (DECELERATION * dt) / 1000;
        if abs(v) > loss {
            if v < 0 {
                self.velocity = v + loss;
            } else {
                self.velocity = v - loss;
            }
        } else {
            self.velocity = 0;
        }
    }

    /// Pushes the paddle toward larger x.
    pub fn move_up(&mut self)
        requires
            old(self).wf(),
        ensures
            final(self).wf(),
            final(self).spec_velocity() == spec_accelerate(
                old(self).spec_velocity() as int,
                Movement::Up,
            ),
            final(self).spec_position() == old(self).spec_position(),
            final(self).spec_id() == old(self).spec_id(),
            final(self).spec_addr() == old(self).spec_addr(),
    {
        let v: i64 = self.velocity + ACCELERATION;
        self.velocity = if v > MAX_SPEED {
            MAX_SPEED
        } else {
            v
        };
    }

    /// Pushes the paddle toward smaller x.
    pub fn move_down(&mut self)
        requires
            old(self).wf(),
        ensures
            final(self).wf(),
            final(self).spec_velocity() == spec_accelerate(
                old(self).spec_velocity() as int,
                Movement::Down,
            ),
            final(self).spec_position() == old(self).spec_position(),
            final(self).spec_id() == old(self).spec_id(),
            final(self).spec_addr() == old(self).spec_addr(),
    {
        let v: i64 = self.velocity - ACCELERATION;
        self.velocity = if v < -MAX_SPEED {
            -MAX_SPEED
        } else {
            v
        };
    }

    /// Brings the paddle to rest.
    pub fn stop(&mut self)
        ensures
            final(self).spec_velocity() == spec_accelerate(
                old(self).spec_velocity() as int,
                Movement::Stop,
            ),
            final(self).spec_position() == old(self).spec_position(),
            final(self).spec_id() == old(self).spec_id(),
            final(self).spec_addr() == old(self).spec_addr(),
            old(self).wf() ==> final(self).wf(),
    {
        self.velocity = 0;
    }

    /// Applies one movement command to the paddle's velocity.
    pub fn apply_movement(&mut self, movement: Movement)
        requires
            old(self).wf(),
        ensures
            final(self).wf(),
            *final(self) == old(self).spec_commanded(movement),
            final(self).spec_velocity() == spec_accelerate(
                old(self).spec_velocity() as int,
                movement,
            ),
            final(self).spec_position() == old(self).spec_position(),
            final(self).spec_id() == old(self).spec_id(),
            final(self).spec_addr() == old(self).spec_addr(),
    {
        match movement {
            Movement::Up => self.move_up(),
            Movement::Down => self.move_down(),
            Movement::Stop => self.stop(),
        }
    }

    /// The player after a tick of `dt_ms` milliseconds.
    pub open spec fn spec_ticked(self, dt_ms: u32) -> Player {
        self.spec_moved_to(
            (
                spec_travel(
                    self.spec_position().0 as int,
                    self.spec_velocity() as int,
                    dt_ms as int,
                ) as i64,
                self.spec_position().1,
            ),
        ).spec_with_velocity(spec_decay(self.spec_velocity() as int, dt_ms as int) as i64)
    }

    /// The player after one movement command.
    pub open spec fn spec_commanded(self, movement: Movement) -> Player {
        self.spec_with_velocity(spec_accelerate(self.spec_velocity() as int, movement) as i64)
    }

    /// What a new player is made of: its seat and endpoint are those given,
    /// and its paddle rests in the corner of the field.
    pub proof fn lemma_new(id: PlayerId, addr: NetAddr)
        ensures
            Self::spec_new(id, addr).spec_id() == id,
            Self::spec_new(id, addr).spec_addr() == addr,
            Self::spec_new(id, addr).spec_position() == (0i64, 0i64),
            Self::spec_new(id, addr).spec_velocity() == 0,
            Self::spec_new(id, addr).wf(),
    {
    }

    /// What the derived values of a player are made of.
    pub proof fn lemma_derived(self, position: (i64, i64), velocity: i64)
        ensures
            self.spec_moved_to(position).spec_position() == position,
            self.spec_moved_to(position).spec_velocity() == self.spec_velocity(),
            self.spec_moved_to(position).spec_id() == self.spec_id(),
            self.spec_moved_to(position).spec_addr() == self.spec_addr(),
            self.spec_with_velocity(velocity).spec_velocity() == velocity,
            self.spec_with_velocity(velocity).spec_position() == self.spec_position(),
            self.spec_with_velocity(velocity).spec_id() == self.spec_id(),
            self.spec_with_velocity(velocity).spec_addr() == self.spec_addr(),
    {
    }

    /// Two players with the same seat, endpoint, position and velocity are
    /// the same player.
    pub proof fn lemma_parts_determine(a: Player, b: Player)
        requires
            a.spec_id() == b.spec_id(),
            a.spec_addr() == b.spec_addr(),
            a.spec_position() == b.spec_position(),
            a.spec_velocity() == b.spec_velocity(),
        ensures
            a == b,
    {
    }
}

/// A product of a paddle velocity and a tick length stays far inside `i64`.
pub proof fn lemma_product_bounds(v: int, dt: int)
    requires
        -MAX_SPEED <= v <= MAX_SPEED,
        0 <= dt <= u32::MAX,
    ensures
        -MAX_SPEED * 4_294_967_295 <= v * dt <= MAX_SPEED * 4_294_967_295,
        0 <= DECELERATION * dt <= DECELERATION * 4_294_967_295,
        v >= 0 ==> v * dt >= 0,
        v <= 0 ==> v * dt <= 0,
        -900_719_925_474_099 <= spec_displacement(v, dt) <= 900_719_925_474_099,
{
    assert(-MAX_SPEED * 4_294_967_295 <= v * dt <= MAX_SPEED * 4_294_967_295) by (nonlinear_arith)
        requires
            -MAX_SPEED <= v <= MAX_SPEED,
            0 <= dt <= 4_294_967_295,
    ;
    assert(v >= 0 ==> v * dt >= 0) by (nonlinear_arith)
        requires
            0 <= dt,
    ;
    assert(v <= 0 ==> v * dt <= 0) by (nonlinear_arith)
        requires
            0 <= dt,
    ;
}

/// What can happen to a paddle: a movement command arrives, or a tick of so
/// many milliseconds passes.
pub enum PaddleInput {
    Command(Movement),
    Tick(u32),
}

/// Position and velocity of a paddle after one input.
pub open spec fn spec_paddle_step(x: int, velocity: int, input: PaddleInput) -> (int, int) {
    match input {
        PaddleInput::Command(m) => (x, spec_accelerate(velocity, m)),
        PaddleInput::Tick(dt) => (spec_travel(x, velocity, dt as int), spec_decay(velocity, dt as int)),
    }
}

/// Position and velocity of a paddle after a sequence of inputs, first to
/// last.
pub open spec fn spec_paddle_run(x: int, velocity: int, inputs: Seq<PaddleInput>) -> (int, int)
    decreases inputs.len(),
{
    if inputs.len() == 0 {
        (x, velocity)
    } else {
        let before = spec_paddle_run(x, velocity, inputs.drop_last());
        spec_paddle_step(before.0, before.1, inputs.last())
    }
}

/// Position and velocity of a paddle after `rounds` rounds, each an `Up`
/// command followed by a tick of `dt_ms` milliseconds.
pub open spec fn spec_push_up(x: int, velocity: int, rounds: nat, dt_ms: u32) -> (int, int)
    decreases rounds,
{
    if rounds == 0 {
        (x, velocity)
    } else {
        let before = spec_push_up(x, velocity, (rounds - 1) as nat, dt_ms);
        let pushed = spec_accelerate(before.1, Movement::Up);
        (spec_travel(before.0, pushed, dt_ms as int), spec_decay(pushed, dt_ms as int))
    }
}

/// Whatever commands and ticks a paddle receives, it never passes the far end
/// of its range, and its speed never passes the limit.
pub proof fn lemma_paddle_never_passes_edge(x: int, velocity: int, inputs: Seq<PaddleInput>)
    requires
        x <= TRAVEL_MAX,
        -MAX_SPEED <= velocity <= MAX_SPEED,
    ensures
        spec_paddle_run(x, velocity, inputs).0 <= TRAVEL_MAX,
        -MAX_SPEED <= spec_paddle_run(x, velocity, inputs).1 <= MAX_SPEED,
    decreases inputs.len(),
{
    if inputs.len() > 0 {
        lemma_paddle_never_passes_edge(x, velocity, inputs.drop_last());
        let before = spec_paddle_run(x, velocity, inputs.drop_last());
        match inputs.last() {
            PaddleInput::Command(m) => {},
            PaddleInput::Tick(dt) => {
                lemma_decay_bounds(before.1, dt as int);
            },
        }
    }
}

/// Coasting never speeds a paddle up and never turns it round.
pub proof fn lemma_decay_bounds(velocity: int, dt_ms: int)
    requires
        0 <= dt_ms,
    ensures
        spec_abs(spec_decay(velocity, dt_ms)) <= spec_abs(velocity),
        velocity >= 0 ==> spec_decay(velocity, dt_ms) >= 0,
        velocity <= 0 ==> spec_decay(velocity, dt_ms) <= 0,
{
    assert(DECELERATION * dt_ms >= 0) by (nonlinear_arith)
        requires
            dt_ms >= 0,
    ;
}

/// A paddle that is pushed `Up` before every tick reaches the far end of its
/// range and stays there: each round carries it at least twenty units
/// further until it stands at `TRAVEL_MAX`, which it never passes.
pub proof fn lemma_push_up_reaches_edge(x: int, velocity: int, rounds: nat, dt_ms: u32)
    requires
        TRAVEL_MIN <= x <= TRAVEL_MAX,
        0 <= velocity <= MAX_SPEED,
        dt_ms >= 1,
    ensures
        spec_push_up(x, velocity, rounds, dt_ms).0 <= TRAVEL_MAX,
        spec_push_up(x, velocity, rounds, dt_ms).0 >= x,
        spec_push_up(x, velocity, rounds, dt_ms).0 == TRAVEL_MAX || spec_push_up(
            x,
            velocity,
            rounds,
            dt_ms,
        ).0 >= x + 20 * rounds,
        0 <= spec_push_up(x, velocity, rounds, dt_ms).1 <= MAX_SPEED,
        x + 20 * rounds >= TRAVEL_MAX ==> spec_push_up(x, velocity, rounds, dt_ms).0 == TRAVEL_MAX,
    decreases rounds,
{
    if rounds > 0 {
        lemma_push_up_reaches_edge(x, velocity, (rounds - 1) as nat, dt_ms);
        let before = spec_push_up(x, velocity, (rounds - 1) as nat, dt_ms);
        let pushed = spec_accelerate(before.1, Movement::Up);
        lemma_decay_bounds(pushed, dt_ms as int);
        assert(pushed * dt_ms >= 20_972) by (nonlinear_arith)
            requires
                pushed >= 20_972,
                dt_ms >= 1,
        ;
        assert(spec_displacement(pushed, dt_ms as int) >= 20);
    }
}

/// Whatever a valid paddle was doing, pushing it `Up` before every tick
/// brings it to the far end of its range: after ten rounds it no longer moves
/// down, from then on each round carries it at least twenty units further
/// until it stands at `TRAVEL_MAX`, and there it stays. It never passes
/// `TRAVEL_MAX`.
pub proof fn lemma_push_up_converges(x: int, velocity: int, rounds: nat, dt_ms: u32)
    requires
        0 <= x <= ONE,
        -MAX_SPEED <= velocity <= MAX_SPEED,
        dt_ms >= 1,
    ensures
        rounds >= 1 ==> TRAVEL_MIN <= spec_push_up(x, velocity, rounds, dt_ms).0 <= TRAVEL_MAX,
        -MAX_SPEED <= spec_push_up(x, velocity, rounds, dt_ms).1 <= MAX_SPEED,
        spec_push_up(x, velocity, rounds, dt_ms).1 >= 0 || spec_push_up(
            x,
            velocity,
            rounds,
            dt_ms,
        ).1 >= rounds * ACCELERATION - MAX_SPEED,
        rounds >= 10 ==> spec_push_up(x, velocity, rounds, dt_ms).1 >= 0,
        rounds >= 10 ==> spec_push_up(x, velocity, rounds, dt_ms).0 == TRAVEL_MAX || spec_push_up(
            x,
            velocity,
            rounds,
            dt_ms,
        ).0 >= TRAVEL_MIN + 20 * (rounds - 10),
        rounds >= 45_886 ==> spec_push_up(x, velocity, rounds, dt_ms).0 == TRAVEL_MAX,
    decreases rounds,
{
    if rounds > 0 {
        lemma_push_up_converges(x, velocity, (rounds - 1) as nat, dt_ms);
        let before = spec_push_up(x, velocity, (rounds - 1) as nat, dt_ms);
        let pushed = spec_accelerate(before.1, Movement::Up);
        lemma_decay_bounds(pushed, dt_ms as int);
        if before.1 >= 0 {
            assert(pushed * dt_ms >= 20_972) by (nonlinear_arith)
                requires
                    pushed >= 20_972,
                    dt_ms >= 1,
            ;
            assert(spec_displacement(pushed, dt_ms as int) >= 20);
        }
    }
}

/// The same command handled twice changes the velocity by the same step each
/// time: two `Up`s add two acceleration steps up to the speed limit, two
/// `Down`s take two away down to the limit, and a second `Stop` changes
/// nothing.
pub proof fn lemma_repeated_command(velocity: int, movement: Movement)
    requires
        -MAX_SPEED <= velocity <= MAX_SPEED,
    ensures
        movement == Movement::Up ==> spec_accelerate(spec_accelerate(velocity, movement), movement)
            == spec_clamp(velocity + 2 * ACCELERATION, -MAX_SPEED as int, MAX_SPEED as int),
        movement == Movement::Down ==> spec_accelerate(
            spec_accelerate(velocity, movement),
            movement,
        ) == spec_clamp(velocity - 2 * ACCELERATION, -MAX_SPEED as int, MAX_SPEED as int),
        movement == Movement::Stop ==> spec_accelerate(
            spec_accelerate(velocity, movement),
            movement,
        ) == spec_accelerate(velocity, movement),
        -MAX_SPEED <= spec_accelerate(velocity, movement) <= MAX_SPEED,
{
}

} // verus!
