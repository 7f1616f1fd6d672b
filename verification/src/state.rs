//! One match: two seats, one ball, a phase and a running tally.
//!
//! Player 1 defends the goal line at `y = ONE`, player 2 the one at `y = 0`.
//! A ball that reaches a goal line gives a point to the player defending the
//! other one and is served again from the centre, toward the player who lost
//! the point.

use vstd::prelude::*;
use crate::address::NetAddr;
use crate::ball::{
    Ball, BallState, Wall, spec_bounce, spec_served, spec_served_to, spec_update, spec_which_wall,
};
use crate::error::{GameError, GameErrorView, ServerError, ServerErrorView};
use crate::fixed::{spec_single_bits, to_single_bits};
use crate::game_update::{GameUpdateData, PositionData, Score, ScoreData};
use crate::model::{
    EntityId, GameState, Movement, PlayerId, Position, PositionPacket, ScorePacket,
};
use crate::player::Player;
use crate::random::random_byte;
use crate::registry::{
    PlayerConnection, PlayerManager, elapsed, spec_elapsed, spec_lined_up, spec_refreshed,
    spec_swept, spec_ticked,
};

verus! {

/// A counter one higher, or unchanged once it has reached its largest value.
pub open spec fn spec_bump(n: u8) -> u8 {
    if n == 255 {
        255
    } else {
        (n + 1) as u8
    }
}

/// The tally after a point for `id`.
pub open spec fn spec_scored(scores: (u8, u8), id: PlayerId) -> (u8, u8) {
    match id {
        PlayerId::Player1 => (spec_bump(scores.0), scores.1),
        PlayerId::Player2 => (scores.0, spec_bump(scores.1)),
    }
}

/// A point never takes a point away: no counter of the tally decreases.
pub proof fn lemma_score_never_decreases(scores: (u8, u8), id: PlayerId)
    ensures
        spec_scored(scores, id).0 >= scores.0,
        spec_scored(scores, id).1 >= scores.1,
{
}

/// The length of the tick that ends at `now`, in milliseconds.
pub open spec fn spec_tick_length(now: u64, last_update: u64) -> u32 {
    if spec_elapsed(now, last_update) > u32::MAX {
        u32::MAX
    } else {
        spec_elapsed(now, last_update) as u32
    }
}

/// A duration `dt` milliseconds longer, or the longest there is.
pub open spec fn spec_lengthened(duration: u64, dt: u64) -> u64 {
    if duration + dt > u64::MAX {
        u64::MAX
    } else {
        (duration + dt) as u64
    }
}

/// The ball after a tick's motion and the side walls' reflection.
pub open spec fn spec_ball_moved(b: BallState, paddles: Seq<Player>) -> BallState {
    let m = spec_update(b, paddles);
    BallState { x: m.x, y: m.y, dx: spec_bounce(m.x, m.dx), dy: m.dy }
}

/// The player who gains a point when the ball touches `wall`: the one
/// defending the other goal line. Side walls give no point.
pub open spec fn spec_scorer(wall: Wall) -> Option<PlayerId> {
    match wall {
        Wall::Top => Some(PlayerId::Player1),
        Wall::Bottom => Some(PlayerId::Player2),
        _ => None,
    }
}

/// The number by which a seat is named when the ball is served.
pub open spec fn spec_seat_number(id: PlayerId) -> u8 {
    match id {
        PlayerId::Player1 => 1,
        PlayerId::Player2 => 2,
    }
}

/// The number by which a seat is named when the ball is served.
pub fn seat_number(id: PlayerId) -> (r: u8)
    ensures
        r == spec_seat_number(id),
{
    match id {
        PlayerId::Player1 => 1,
        PlayerId::Player2 => 2,
    }
}

/// The wire form of a paddle's or the ball's position.
pub open spec fn spec_wire_position(p: (int, int)) -> Position {
    (spec_single_bits(p.0) as u32, spec_single_bits(p.1) as u32)
}

/// How a tick that ends at `now` changes a match.
///
/// A finished match stays as it is. A waiting match with both seats occupied
/// starts as a new match does: the tally is cleared, the paddles are lined
/// up and the ball is served. A match marked as under way with a seat
/// empty goes back to waiting. In a match under way the paddles travel for
/// the length of the tick, the ball makes its move against the paddles' new
/// positions, side walls reflect it, and a goal line scores.
pub open spec fn spec_updated(before: State, after: State, now: u64) -> bool {
    &&& before.spec_state() == GameState::GameOver ==> {
        &&& after.spec_state() == GameState::GameOver
        &&& after.spec_players() == before.spec_players()
        &&& after.spec_ball() == before.spec_ball()
        &&& after.spec_scores() == before.spec_scores()
        &&& after.spec_duration() == before.spec_duration()
    }
    &&& before.spec_state() == GameState::WaitingForPlayers ==> if before.spec_players().spec_count()
        == 2 {
        &&& after.spec_state() == GameState::GameStarted
        &&& after.spec_scores() == (0u8, 0u8)
        &&& after.spec_duration() == 0
        &&& spec_served(after.spec_ball()@)
        &&& forall|id: PlayerId| #[trigger]
            after.spec_players().spec_seat(id) == spec_lined_up(
                before.spec_players().spec_seat(id),
                id,
            )
    } else {
        &&& after.spec_state() == GameState::WaitingForPlayers
        &&& after.spec_players() == before.spec_players()
        &&& after.spec_ball() == before.spec_ball()
        &&& after.spec_scores() == before.spec_scores()
        &&& after.spec_duration() == before.spec_duration()
    }
    &&& before.spec_state() == GameState::GameStarted && before.spec_players().spec_count() != 2
        ==> {
        &&& after.spec_state() == GameState::WaitingForPlayers
        &&& after.spec_players() == before.spec_players()
        &&& after.spec_ball() == before.spec_ball()
        &&& after.spec_scores() == before.spec_scores()
        &&& after.spec_duration() == before.spec_duration()
    }
    &&& before.spec_state() == GameState::GameStarted && before.spec_players().spec_count() == 2
        ==> {
        &&& after.spec_state() == GameState::GameStarted
        &&& after.spec_duration() == spec_lengthened(
            before.spec_duration(),
            spec_elapsed(now, before.spec_last_update()),
        )
        &&& forall|id: PlayerId| #[trigger]
            after.spec_players().spec_seat(id) == spec_ticked(
                before.spec_players().spec_seat(id),
                spec_tick_length(now, before.spec_last_update()),
            )
        &&& State::spec_scoring(
            spec_ball_moved(before.spec_ball()@, after.spec_players().spec_players()),
            before.spec_scores(),
            after.spec_ball()@,
            after.spec_scores(),
        )
    }
}

/// A tick never ends a match: a match that is over after a tick was over
/// before it. Scoring adds to the tally and serves again.
pub proof fn lemma_tick_never_ends_a_match(before: State, after: State, now: u64)
    requires
        spec_updated(before, after, now),
        after.spec_state() == GameState::GameOver,
    ensures
        before.spec_state() == GameState::GameOver,
{
}

/// One match.
#[derive(Clone, Copy, Debug)]
pub struct State {
    players: PlayerManager,
    ball: Ball,
    state: GameState,
    scores: ScorePacket,
    last_update: u64,
    game_duration: u64,
}

impl State {
    pub closed spec fn spec_players(&self) -> PlayerManager {
        self.players
    }

    pub closed spec fn spec_ball(&self) -> Ball {
        self.ball
    }

    pub closed spec fn spec_state(&self) -> GameState {
        self.state
    }

    pub closed spec fn spec_scores(&self) -> (u8, u8) {
        self.scores.spec_payload()
    }

    pub closed spec fn spec_last_update(&self) -> u64 {
        self.last_update
    }

    pub closed spec fn spec_duration(&self) -> u64 {
        self.game_duration
    }

    /// The seats and the ball are valid.
    pub open spec fn wf(&self) -> bool {
        &&& self.spec_players().wf()
        &&& self.spec_ball().wf()
    }

    /// A match is under way only while both seats are occupied.
    pub open spec fn spec_consistent(&self) -> bool {
        self.spec_state() == GameState::GameStarted ==> self.spec_players().spec_count() == 2
    }

    /// Nothing but the seats and the ball differs between two matches.
    pub open spec fn spec_same_course(&self, other: &State) -> bool {
        &&& self.spec_state() == other.spec_state()
        &&& self.spec_scores() == other.spec_scores()
        &&& self.spec_last_update() == other.spec_last_update()
        &&& self.spec_duration() == other.spec_duration()
    }

    /// A match that waits for its players, with a freshly served ball.
    pub fn new(players: PlayerManager, now: u64) -> (r: Self)
        requires
            players.wf(),
        ensures
            r.wf(),
            r.spec_players() == players,
            spec_served(r.spec_ball()@),
            r.spec_state() == GameState::WaitingForPlayers,
            r.spec_scores() == (0u8, 0u8),
            r.spec_last_update() == now,
            r.spec_duration() == 0,
    {
        State {
            players,
            ball: Ball::new(),
            state: GameState::WaitingForPlayers,
            scores: ScorePacket::new(0, 0),
            last_update: now,
            game_duration: 0,
        }
    }

    /// Seats a new player; see [`PlayerManager::add_player`].
    pub fn add_player(&mut self, id: PlayerId, addr: NetAddr, now: u64) -> (r: Result<
        (),
        ServerError,
    >)
        requires
            old(self).wf(),
        ensures
            final(self).wf(),
            final(self).spec_ball() == old(self).spec_ball(),
            final(self).spec_same_course(old(self)),
            r is Ok <==> old(self).spec_players().spec_seat(id) is None,
            r is Ok ==> final(self).spec_players().spec_seat(id) == Some(
                PlayerConnection { player: Player::spec_new(id, addr), last_seen: now },
            ) && final(self).spec_players().spec_seat(id.spec_opponent()) == old(self).spec_players().spec_seat(
                id.spec_opponent(),
            ),
            r is Err ==> final(self).spec_players() == old(self).spec_players(),
            r is Err ==> (r->Err_0@ == if old(self).spec_players().spec_count() == 2 {
                ServerErrorView::GameFull
            } else {
                ServerErrorView::SeatTaken
            }),
            old(self).spec_consistent() ==> final(self).spec_consistent(),
    {
        self.players.add_player(id, addr, now)
    }

    /// Empties a seat. A match that was under way goes back to waiting for
    /// players. Fails with `PlayerNotFound` when nobody sits there.
    pub fn remove_player(&mut self, id: PlayerId) -> (r: Result<(), ServerError>)
        requires
            old(self).wf(),
        ensures
            final(self).wf(),
            final(self).spec_consistent(),
            final(self).spec_ball() == old(self).spec_ball(),
            r is Ok <==> old(self).spec_players().spec_seat(id) is Some,
            r is Err ==> r->Err_0@ == ServerErrorView::PlayerNotFound,
            final(self).spec_players().spec_seat(id) is None,
            final(self).spec_players().spec_seat(id.spec_opponent()) == old(self).spec_players().spec_seat(
                id.spec_opponent(),
            ),
            final(self).spec_state() == if old(self).spec_state() == GameState::GameStarted {
                GameState::WaitingForPlayers
            } else {
                old(self).spec_state()
            },
            final(self).spec_scores() == old(self).spec_scores(),
            final(self).spec_last_update() == old(self).spec_last_update(),
            final(self).spec_duration() == old(self).spec_duration(),
    {
        let r = self.players.remove_player(id);
        if self.state == GameState::GameStarted {
            self.state = GameState::WaitingForPlayers;
        }
        r
    }

    /// Empties every seat whose player has been silent for longer than
    /// `timeout` milliseconds at `now`. A match that was under way and is
    /// left with fewer than two players goes back to waiting for players.
    /// Returns the number of seats emptied.
    pub fn remove_inactive_players(&mut self, now: u64, timeout: u64) -> (removed: usize)
        requires
            old(self).wf(),
        ensures
            final(self).wf(),
            final(self).spec_consistent(),
            final(self).spec_ball() == old(self).spec_ball(),
            forall|id: PlayerId| #[trigger]
                final(self).spec_players().spec_seat(id) == spec_swept(
                    old(self).spec_players().spec_seat(id),
                    now,
                    timeout,
                ),
            removed == old(self).spec_players().spec_count() - final(self).spec_players().spec_count(),
            final(self).spec_state() == if old(self).spec_state() == GameState::GameStarted
                && final(self).spec_players().spec_count() < 2 {
                GameState::WaitingForPlayers
            } else {
                old(self).spec_state()
            },
            final(self).spec_scores() == old(self).spec_scores(),
            final(self).spec_last_update() == old(self).spec_last_update(),
            final(self).spec_duration() == old(self).spec_duration(),
    {
        let removed = self.players.remove_inactive_players(now, timeout);
        if self.state == GameState::GameStarted && self.players.get_player_count() < 2 {
            self.state = GameState::WaitingForPlayers;
        }
        removed
    }

    /// Starts a match from scratch: the tally is cleared, the ball served,
    /// and the paddles put at their starting positions.
    ///
    /// Succeeds exactly when the match waits for players and both seats are
    /// occupied; otherwise nothing changes.
    pub fn start_new_match(&mut self, now: u64) -> (r: Result<(), GameError>)
        requires
            old(self).wf(),
        ensures
            final(self).wf(),
            r is Ok <==> old(self).spec_state() == GameState::WaitingForPlayers && old(self).spec_players().spec_count() == 2,
            r is Ok ==> {
                &&& final(self).spec_state() == GameState::GameStarted
                &&& final(self).spec_scores() == (0u8, 0u8)
                &&& final(self).spec_last_update() == now
                &&& final(self).spec_duration() == 0
                &&& spec_served(final(self).spec_ball()@)
                &&& forall|id: PlayerId| #[trigger]
                    final(self).spec_players().spec_seat(id) == spec_lined_up(
                        old(self).spec_players().spec_seat(id),
                        id,
                    )
            },
            r is Err ==> *final(self) == *old(self),
            r is Err ==> r->Err_0@ == GameErrorView::Io(
                if old(self).spec_state() == GameState::WaitingForPlayers {
                    "Not enough players to start a match"@
                } else {
                    "Cannot start a new match in the current state"@
                },
            ),
            old(self).spec_consistent() ==> final(self).spec_consistent(),
    {
        match self.state {
            GameState::WaitingForPlayers => {
                if self.players.get_player_count() == 2 {
                    self.state = GameState::GameStarted;
                    self.game_duration = 0;
                    self.ball.reset(random_byte() % 2 + 1);
                    self.scores = ScorePacket::new(0, 0);
                    self.last_update = now;
                    self.players.reset_positions();
                    proof {
                        Self::lemma_lined_up_count(old(self).spec_players(), self.players);
                    }
                    Ok(())
                } else {
                    Err(GameError::Io("Not enough players to start a match".to_owned()))
                }
            },
            _ => Err(GameError::Io("Cannot start a new match in the current state".to_owned())),
        }
    }

    /// Lining the paddles up leaves every seat as occupied as it was.
    pub proof fn lemma_lined_up_count(before: PlayerManager, after: PlayerManager)
        requires
            forall|id: PlayerId| #[trigger]
                after.spec_seat(id) == spec_lined_up(before.spec_seat(id), id),
        ensures
            after.spec_count() == before.spec_count(),
    {
        assert(after.spec_seat(PlayerId::Player1) == spec_lined_up(
            before.spec_seat(PlayerId::Player1),
            PlayerId::Player1,
        ));
        assert(after.spec_seat(PlayerId::Player2) == spec_lined_up(
            before.spec_seat(PlayerId::Player2),
            PlayerId::Player2,
        ));
    }

    /// Sets a waiting match going: the ball is served, the paddles are put
    /// at their starting positions and the clock of the match starts at
    /// zero. The tally is kept.
    ///
    /// Succeeds exactly when the match waits for players and both seats are
    /// occupied; otherwise nothing changes.
    pub fn start_game(&mut self) -> (r: Result<(), GameError>)
        requires
            old(self).wf(),
        ensures
            final(self).wf(),
            r is Ok <==> old(self).spec_state() == GameState::WaitingForPlayers && old(self).spec_players().spec_count() == 2,
            r is Ok ==> {
                &&& final(self).spec_state() == GameState::GameStarted
                &&& final(self).spec_scores() == old(self).spec_scores()
                &&& final(self).spec_last_update() == old(self).spec_last_update()
                &&& final(self).spec_duration() == 0
                &&& spec_served(final(self).spec_ball()@)
                &&& forall|id: PlayerId| #[trigger]
                    final(self).spec_players().spec_seat(id) == spec_lined_up(
                        old(self).spec_players().spec_seat(id),
                        id,
                    )
            },
            r is Err ==> *final(self) == *old(self),
            r is Err ==> r->Err_0@ == GameErrorView::Io(
                if old(self).spec_state() == GameState::WaitingForPlayers {
                    "Not enough players to start a match"@
                } else {
                    "Game already started"@
                },
            ),
            old(self).spec_consistent() ==> final(self).spec_consistent(),
    {
        if self.state == GameState::WaitingForPlayers {
            if self.players.get_player_count() == 2 {
                self.state = GameState::GameStarted;
                self.game_duration = 0;
                self.ball.reset(random_byte() % 2 + 1);
                self.players.reset_positions();
                proof {
                    Self::lemma_lined_up_count(old(self).spec_players(), self.players);
                }
                Ok(())
            } else {
                Err(GameError::Io("Not enough players to start a match".to_owned()))
            }
        } else {
            Err(GameError::Io("Game already started".to_owned()))
        }
    }

    /// Ends a match that is under way; any other match is left as it is.
    pub fn end_game(&mut self)
        ensures
            final(self).spec_state() == if old(self).spec_state() == GameState::GameStarted {
                GameState::GameOver
            } else {
                old(self).spec_state()
            },
            final(self).spec_players() == old(self).spec_players(),
            final(self).spec_ball() == old(self).spec_ball(),
            final(self).spec_scores() == old(self).spec_scores(),
            final(self).spec_last_update() == old(self).spec_last_update(),
            final(self).spec_duration() == old(self).spec_duration(),
            final(self).spec_consistent(),
    {
        if self.state == GameState::GameStarted {
            self.state = GameState::GameOver;
        }
    }

    /// Advances the match to `now`.
    ///
    /// While the match is under way, the paddles travel for the time since
    /// the last update, the ball makes its sub-stepped move against the
    /// paddles' new positions, side walls reflect it and goal lines score.
    /// A waiting match with both seats occupied starts as
    /// [`State::start_new_match`] starts it. A finished match
    /// only notes the time. A match marked as under way with a seat empty
    /// goes back to waiting.
    pub fn update(&mut self, now: u64) -> (r: Result<(), GameError>)
        requires
            old(self).wf(),
        ensures
            r is Ok,
            final(self).wf(),
            final(self).spec_consistent(),
            final(self).spec_last_update() == now,
            old(self).spec_state() != GameState::WaitingForPlayers ==> final(self).spec_scores().0
                >= old(self).spec_scores().0 && final(self).spec_scores().1 >= old(
                self,
            ).spec_scores().1,
            spec_updated(*old(self), *final(self), now),
    {
        let dt_full: u64 = elapsed(now, self.last_update);
        let dt: u32 = if dt_full > 4_294_967_295 {
            4_294_967_295
        } else {
            dt_full as u32
        };
        self.last_update = now;
        match self.state {
            GameState::GameStarted => {
                if self.players.get_player_count() != 2 {
                    self.state = GameState::WaitingForPlayers;
                } else {
                    self.game_duration = self.game_duration.saturating_add(dt_full);
                    self.update_player_positions(dt);
                    self.update_ball_position();
                    self.handle_collisions();
                    self.check_scoring();
                }
            },
            GameState::GameOver => {},
            GameState::WaitingForPlayers => {
                if self.players.get_player_count() == 2 {
                    let _ = self.start_new_match(now);
                }
            },
        }
        Ok(())
    }

    /// How a ball that has made its move, and a tally, relate to the ball and
    /// the tally after scoring: at a goal line the defender of the other line
    /// gains a point and the ball is served toward the player who lost it;
    /// anywhere else nothing changes.
    pub open spec fn spec_scoring(
        moved: BallState,
        scores: (u8, u8),
        ball_after: BallState,
        scores_after: (u8, u8),
    ) -> bool {
        match spec_scorer(spec_which_wall(moved.x, moved.y)) {
            Some(id) => scores_after == spec_scored(scores, id) && spec_served_to(
                ball_after,
                spec_seat_number(id.spec_opponent()),
            ),
            None => scores_after == scores && ball_after == moved,
        }
    }

    /// Advances both paddles by `dt_ms` milliseconds.
    pub fn update_player_positions(&mut self, dt_ms: u32)
        requires
            old(self).wf(),
        ensures
            final(self).wf(),
            final(self).spec_ball() == old(self).spec_ball(),
            final(self).spec_same_course(old(self)),
            forall|id: PlayerId| #[trigger]
                final(self).spec_players().spec_seat(id) == spec_ticked(
                    old(self).spec_players().spec_seat(id),
                    dt_ms,
                ),
    {
        let _ = self.players.update_player_position(PlayerId::Player1, dt_ms);
        let _ = self.players.update_player_position(PlayerId::Player2, dt_ms);
        proof {
            let before = old(self).spec_players();
            let after = self.players;
            assert forall|id: PlayerId| #[trigger]
                after.spec_seat(id) == spec_ticked(before.spec_seat(id), dt_ms) by {
                assert(PlayerId::Player1.spec_opponent() == PlayerId::Player2);
                assert(PlayerId::Player2.spec_opponent() == PlayerId::Player1);
            }
        }
    }

    /// Moves the ball through one tick against the seated players' paddles.
    pub fn update_ball_position(&mut self)
        requires
            old(self).wf(),
        ensures
            final(self).wf(),
            final(self).spec_players() == old(self).spec_players(),
            final(self).spec_same_course(old(self)),
            final(self).spec_ball()@ == spec_update(old(self).spec_ball()@, old(self).spec_players().spec_players()),
    {
        let players = self.players.get_players();
        proof {
            let p = self.players;
            assert forall|i: int| 0 <= i < players@.len() implies (#[trigger] players@[i]).wf() by {
                assert(p.spec_seat(PlayerId::Player1) is Some ==> p.spec_seat(
                    PlayerId::Player1,
                ).unwrap().player.wf());
                assert(p.spec_seat(PlayerId::Player2) is Some ==> p.spec_seat(
                    PlayerId::Player2,
                ).unwrap().player.wf());
            }
        }
        self.ball.update_position(&players);
    }

    /// Lets the side walls reflect a ball that touches an edge.
    pub fn handle_collisions(&mut self)
        requires
            old(self).wf(),
        ensures
            final(self).wf(),
            final(self).spec_players() == old(self).spec_players(),
            final(self).spec_same_course(old(self)),
            final(self).spec_ball()@ == (BallState {
                x: old(self).spec_ball()@.x,
                y: old(self).spec_ball()@.y,
                dx: spec_bounce(old(self).spec_ball()@.x, old(self).spec_ball()@.dx),
                dy: old(self).spec_ball()@.dy,
            }),
    {
        if self.ball.collides_with_wall() {
            self.ball.bounce_off_wall();
        }
    }

    /// Scores a ball that has reached a goal line: the player defending the
    /// other line gains a point, and the ball is served from the centre
    /// toward the player who lost it.
    pub fn check_scoring(&mut self)
        requires
            old(self).wf(),
        ensures
            final(self).wf(),
            final(self).spec_players() == old(self).spec_players(),
            final(self).spec_state() == old(self).spec_state(),
            final(self).spec_last_update() == old(self).spec_last_update(),
            final(self).spec_duration() == old(self).spec_duration(),
            Self::spec_scoring(
                old(self).spec_ball()@,
                old(self).spec_scores(),
                final(self).spec_ball()@,
                final(self).spec_scores(),
            ),
    {
        if self.ball.collides_with_wall() {
            match self.ball.which_wall() {
                Wall::Top => {
                    self.update_score(PlayerId::Player1);
                    self.ball.reset(2);
                },
                Wall::Bottom => {
                    self.update_score(PlayerId::Player2);
                    self.ball.reset(1);
                },
                _ => {},
            }
        }
    }

    /// The wire positions of both paddles and the ball of a match with both
    /// seats occupied: each coordinate as the single that equals it.
    pub open spec fn spec_position_packet(&self) -> PositionPacket {
        let first = self.spec_players().spec_seat(PlayerId::Player1).unwrap().player;
        let second = self.spec_players().spec_seat(PlayerId::Player2).unwrap().player;
        PositionPacket::spec_new(
            spec_wire_position((first.spec_position().0 as int, first.spec_position().1 as int)),
            spec_wire_position((second.spec_position().0 as int, second.spec_position().1 as int)),
            spec_wire_position((self.spec_ball()@.x, self.spec_ball()@.y)),
        )
    }

    /// The tally as the wire carries it.
    pub open spec fn spec_score_packet(&self) -> ScorePacket {
        ScorePacket::spec_new(self.spec_scores().0, self.spec_scores().1)
    }

    /// The positions of both paddles and the ball as the wire carries them.
    ///
    /// Fails while a seat is empty.
    pub fn get_positions(&self) -> (r: Result<PositionPacket, GameError>)
        requires
            self.wf(),
        ensures
            r is Ok <==> self.spec_players().spec_count() == 2,
            r is Ok ==> r->Ok_0 == self.spec_position_packet(),
            r is Err ==> r->Err_0@ == GameErrorView::Io("Not enough players"@),
    {
        let one = self.players.get_player(PlayerId::Player1);
        let two = self.players.get_player(PlayerId::Player2);
        match (one, two) {
            (Some(a), Some(b)) => {
                let pa = a.get_position();
                let pb = b.get_position();
                let pc = self.ball.get_position();
                Ok(
                    PositionPacket::new(
                        (to_single_bits(pa.0), to_single_bits(pa.1)),
                        (to_single_bits(pb.0), to_single_bits(pb.1)),
                        (to_single_bits(pc.0), to_single_bits(pc.1)),
                    ),
                )
            },
            _ => Err(GameError::Io("Not enough players".to_owned())),
        }
    }

    /// The seats of the match.
    pub fn players(&self) -> (r: &PlayerManager)
        ensures
            *r == self.spec_players(),
    {
        &self.players
    }

    /// The ball of the match.
    pub fn ball(&self) -> (r: &Ball)
        ensures
            *r == self.spec_ball(),
    {
        &self.ball
    }

    /// Replaces the ball of the match.
    pub fn set_ball(&mut self, ball: Ball)
        ensures
            final(self).spec_ball() == ball,
            final(self).spec_players() == old(self).spec_players(),
            final(self).spec_same_course(old(self)),
    {
        self.ball = ball;
    }

    /// Notes that a datagram from `addr` arrived at `now`; see
    /// [`PlayerManager::update_last_seen`].
    pub fn update_last_seen(&mut self, addr: NetAddr, now: u64)
        requires
            old(self).wf(),
        ensures
            final(self).wf(),
            final(self).spec_ball() == old(self).spec_ball(),
            final(self).spec_same_course(old(self)),
            forall|id: PlayerId| #[trigger]
                final(self).spec_players().spec_seat(id) == spec_refreshed(
                    old(self).spec_players().spec_seat(id),
                    addr,
                    now,
                ),
            old(self).spec_consistent() ==> final(self).spec_consistent(),
    {
        self.players.update_last_seen(addr, now);
        proof {
            let before = old(self).players;
            let after = self.players;
            assert(after.spec_seat(PlayerId::Player1) == spec_refreshed(
                before.spec_seat(PlayerId::Player1),
                addr,
                now,
            ));
            assert(after.spec_seat(PlayerId::Player2) == spec_refreshed(
                before.spec_seat(PlayerId::Player2),
                addr,
                now,
            ));
        }
    }

    /// One picture of the match: the positions, the tally and the phase as
    /// they are together at this moment.
    ///
    /// Fails while a seat is empty.
    pub fn snapshot(&self) -> (r: Result<GameUpdateData, GameError>)
        requires
            self.wf(),
        ensures
            r is Ok <==> self.spec_players().spec_count() == 2,
            r is Ok ==> {
                &&& r->Ok_0.spec_status() == self.spec_state()
                &&& r->Ok_0.spec_scores().spec_index(PlayerId::Player1) == Score(
                    self.spec_scores().0,
                )
                &&& r->Ok_0.spec_scores().spec_index(PlayerId::Player2) == Score(
                    self.spec_scores().1,
                )
                &&& r->Ok_0.spec_positions().spec_index(EntityId::Player(PlayerId::Player1))
                    == self.spec_position_packet().spec_payload().0
                &&& r->Ok_0.spec_positions().spec_index(EntityId::Player(PlayerId::Player2))
                    == self.spec_position_packet().spec_payload().1
                &&& r->Ok_0.spec_positions().spec_index(EntityId::Ball)
                    == self.spec_position_packet().spec_payload().2
            },
            r is Err ==> r->Err_0@ == GameErrorView::Io("Not enough players"@),
    {
        match self.get_positions() {
            Ok(packet) => {
                let (one, two, ball) = packet.get_payload();
                let (s1, s2) = self.scores.get_payload();
                Ok(
                    GameUpdateData::new(
                        PositionData::new(*one, *two, *ball),
                        ScoreData::new(Score(s1), Score(s2)),
                        self.state,
                    ),
                )
            },
            Err(e) => Err(e),
        }
    }

    pub fn get_state(&self) -> (r: GameState)
        ensures
            r == self.spec_state(),
    {
        self.state
    }

    pub fn get_scores(&self) -> (r: &ScorePacket)
        ensures
            r.spec_payload() == self.spec_scores(),
            *r == self.spec_score_packet(),
    {
        proof {
            self.scores.lemma_parts();
        }
        &self.scores
    }

    /// Gives a point to `player_id`.
    pub fn update_score(&mut self, player_id: PlayerId)
        ensures
            final(self).spec_scores() == spec_scored(old(self).spec_scores(), player_id),
            final(self).spec_players() == old(self).spec_players(),
            final(self).spec_ball() == old(self).spec_ball(),
            final(self).spec_state() == old(self).spec_state(),
            final(self).spec_last_update() == old(self).spec_last_update(),
            final(self).spec_duration() == old(self).spec_duration(),
    {
        let (player1_score, player2_score) = self.scores.get_payload();
        match player_id {
            PlayerId::Player1 => {
                self.scores = ScorePacket::new(player1_score.saturating_add(1), player2_score);
            },
            PlayerId::Player2 => {
                self.scores = ScorePacket::new(player1_score, player2_score.saturating_add(1));
            },
        }
    }

    pub fn get_player_count(&self) -> (r: usize)
        ensures
            r == self.spec_players().spec_count(),
    {
        self.players.get_player_count()
    }

    /// Applies a movement command to the paddle in seat `player_id`, and
    /// says whether anyone sits there. Nothing but that paddle's velocity
    /// changes.
    pub fn move_player(&mut self, player_id: PlayerId, movement: Movement) -> (found: bool)
        requires
            old(self).wf(),
        ensures
            final(self).wf(),
            final(self).spec_ball() == old(self).spec_ball(),
            final(self).spec_same_course(old(self)),
            found == old(self).spec_players().spec_seat(player_id) is Some,
            found ==> final(self).spec_players().spec_seat(player_id) == Some(
                PlayerConnection {
                    player: old(self).spec_players().spec_seat(player_id).unwrap().player.spec_commanded(
                        movement,
                    ),
                    last_seen: old(self).spec_players().spec_seat(player_id).unwrap().last_seen,
                },
            ),
            !found ==> final(self).spec_players() == old(self).spec_players(),
            final(self).spec_players().spec_seat(player_id.spec_opponent()) == old(self).spec_players().spec_seat(player_id.spec_opponent()),
            old(self).spec_consistent() ==> final(self).spec_consistent(),
    {
        let found = self.players.move_player(player_id, movement);
        proof {
            if !found {
                PlayerManager::lemma_seats_determine(self.players, old(self).spec_players());
            }
        }
        found
    }

    /// Brings the match back to its beginning: no points, a freshly served
    /// ball, the paddles at their starting positions, waiting for players.
    pub fn reset(&mut self)
        requires
            old(self).wf(),
        ensures
            final(self).wf(),
            final(self).spec_consistent(),
            final(self).spec_state() == GameState::WaitingForPlayers,
            final(self).spec_scores() == (0u8, 0u8),
            final(self).spec_duration() == 0,
            final(self).spec_last_update() == old(self).spec_last_update(),
            spec_served(final(self).spec_ball()@),
            forall|id: PlayerId| #[trigger]
                final(self).spec_players().spec_seat(id) == spec_lined_up(
                    old(self).spec_players().spec_seat(id),
                    id,
                ),
    {
        self.scores = ScorePacket::new(0, 0);
        self.ball.reset(random_byte() % 2 + 1);
        self.state = GameState::WaitingForPlayers;
        self.game_duration = 0;
        self.players.reset_positions();
    }
}

} // verus!
