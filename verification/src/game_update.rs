//! One consistent picture of a match: every position, the tally and the
//! phase, read together.

use vstd::prelude::*;
use crate::model::{EntityId, GameState, PlayerId, Position};

verus! {

/// The phase of a match, as a picture of the match carries it.
pub type GameStatus = GameState;

/// The points of one player.
#[derive(Debug, PartialEq, Eq, Structural, Clone, Copy)]
pub struct Score(pub u8);

/// The points of both players.
#[derive(Debug, PartialEq, Eq, Structural, Clone, Copy)]
pub struct ScoreData {
    player1_score: Score,
    player2_score: Score,
}

impl ScoreData {
    /// The points of a player.
    pub closed spec fn spec_index(&self, player_id: PlayerId) -> Score {
        match player_id {
            PlayerId::Player1 => self.player1_score,
            PlayerId::Player2 => self.player2_score,
        }
    }

    pub fn new(player1_score: Score, player2_score: Score) -> (r: Self)
        ensures
            r.spec_index(PlayerId::Player1) == player1_score,
            r.spec_index(PlayerId::Player2) == player2_score,
    {
        Self { player1_score, player2_score }
    }

    /// The points of a player.
    pub fn index(&self, player_id: PlayerId) -> (r: &Score)
        ensures
            *r == self.spec_index(player_id),
    {
        match player_id {
            PlayerId::Player1 => &self.player1_score,
            PlayerId::Player2 => &self.player2_score,
        }
    }

    /// Replaces the points of a player; the other player's stay.
    pub fn set(&mut self, player_id: PlayerId, score: Score)
        ensures
            final(self).spec_index(player_id) == score,
            final(self).spec_index(player_id.spec_opponent()) == old(self).spec_index(
                player_id.spec_opponent(),
            ),
    {
        match player_id {
            PlayerId::Player1 => {
                self.player1_score = score;
            },
            PlayerId::Player2 => {
                self.player2_score = score;
            },
        }
    }
}

/// The positions of both paddles and the ball, as the wire carries them.
#[derive(Debug, PartialEq, Eq, Clone, Copy)]
pub struct PositionData {
    player1_position: Position,
    player2_position: Position,
    ball_position: Position,
}

impl PositionData {
    /// The position of a paddle or of the ball.
    pub closed spec fn spec_index(&self, entity_id: EntityId) -> Position {
        match entity_id {
            EntityId::Player(PlayerId::Player1) => self.player1_position,
            EntityId::Player(PlayerId::Player2) => self.player2_position,
            EntityId::Ball => self.ball_position,
        }
    }

    pub fn new(player1_position: Position, player2_position: Position, ball_position: Position) -> (r:
        Self)
        ensures
            r.spec_index(EntityId::Player(PlayerId::Player1)) == player1_position,
            r.spec_index(EntityId::Player(PlayerId::Player2)) == player2_position,
            r.spec_index(EntityId::Ball) == ball_position,
    {
        PositionData { player1_position, player2_position, ball_position }
    }

    /// The position of a paddle or of the ball.
    pub fn index(&self, entity_id: EntityId) -> (r: &Position)
        ensures
            *r == self.spec_index(entity_id),
    {
        match entity_id {
            EntityId::Player(PlayerId::Player1) => &self.player1_position,
            EntityId::Player(PlayerId::Player2) => &self.player2_position,
            EntityId::Ball => &self.ball_position,
        }
    }

    /// Replaces the position of a paddle or of the ball; the others stay.
    pub fn set(&mut self, entity_id: EntityId, position: Position)
        ensures
            final(self).spec_index(entity_id) == position,
            forall|other: EntityId|
                other != entity_id ==> #[trigger] final(self).spec_index(other) == old(
                    self,
                ).spec_index(other),
    {
        match entity_id {
            EntityId::Player(PlayerId::Player1) => {
                self.player1_position = position;
            },
            EntityId::Player(PlayerId::Player2) => {
                self.player2_position = position;
            },
            EntityId::Ball => {
                self.ball_position = position;
            },
        }
    }
}

/// One picture of a match.
#[derive(Debug, Clone, Copy)]
pub struct GameUpdateData {
    positions: PositionData,
    scores: ScoreData,
    game_status: GameStatus,
}

impl GameUpdateData {
    pub closed spec fn spec_positions(&self) -> PositionData {
        self.positions
    }

    pub closed spec fn spec_scores(&self) -> ScoreData {
        self.scores
    }

    pub closed spec fn spec_status(&self) -> GameStatus {
        self.game_status
    }

    pub fn new(position_data: PositionData, score_data: ScoreData, game_status: GameStatus) -> (r:
        Self)
        ensures
            r.spec_positions() == position_data,
            r.spec_scores() == score_data,
            r.spec_status() == game_status,
    {
        GameUpdateData { positions: position_data, scores: score_data, game_status }
    }

    pub fn positions(&self) -> (r: &PositionData)
        ensures
            *r == self.spec_positions(),
    {
        &self.positions
    }

    pub fn scores(&self) -> (r: &ScoreData)
        ensures
            *r == self.spec_scores(),
    {
        &self.scores
    }

    pub fn game_status(&self) -> (r: GameStatus)
        ensures
            r == self.spec_status(),
    {
        self.game_status
    }
}

} // verus!
