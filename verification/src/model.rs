//! The messages of the wire protocol and the values they carry.

use vstd::prelude::*;
use crate::error::{ClientError, ClientErrorView, ServerError, ServerErrorView};

verus! {

/// One of the two seats of a match.
#[derive(Debug, PartialEq, Eq, Structural, Hash, Copy, Clone)]
pub enum PlayerId {
    Player1,
    Player2,
}

impl PlayerId {
    /// The other seat.
    pub fn opponent(self) -> (r: PlayerId)
        ensures
            r == self.spec_opponent(),
    {
        match self {
            PlayerId::Player1 => PlayerId::Player2,
            PlayerId::Player2 => PlayerId::Player1,
        }
    }

    pub open spec fn spec_opponent(self) -> PlayerId {
        match self {
            PlayerId::Player1 => PlayerId::Player2,
            PlayerId::Player2 => PlayerId::Player1,
        }
    }
}

/// Anything that has a position on the field.
#[derive(Debug, PartialEq, Eq, Structural, Copy, Clone)]
pub enum EntityId {
    Player(PlayerId),
    Ball,
}

/// A movement intent sent by a client.
#[derive(Debug, PartialEq, Eq, Structural, Copy, Clone)]
pub enum Movement {
    Up,
    Down,
    Stop,
}

/// The phase of a match.
#[derive(Debug, PartialEq, Eq, Structural, Copy, Clone)]
pub enum GameState {
    WaitingForPlayers,
    GameStarted,
    GameOver,
}

/// A point as the wire carries it: the bit patterns of two IEEE-754
/// single-precision numbers, `x` first.
pub type Position = (u32, u32);

/// The paddles' and the ball's positions, by seat.
#[derive(Debug, PartialEq, Eq, Copy, Clone)]
pub struct PositionPacket {
    player1: Position,
    player2: Position,
    ball: Position,
}

impl PositionPacket {
    pub closed spec fn spec_payload(&self) -> (Position, Position, Position) {
        (self.player1, self.player2, self.ball)
    }

    /// The packet that carries these three positions.
    pub closed spec fn spec_new(player1: Position, player2: Position, ball: Position) -> Self {
        PositionPacket { player1, player2, ball }
    }

    /// A packet is made of its three positions and of nothing else.
    pub proof fn lemma_parts(self)
        ensures
            self == Self::spec_new(
                self.spec_payload().0,
                self.spec_payload().1,
                self.spec_payload().2,
            ),
    {
    }

    /// The positions of a packet are those it was made from.
    pub proof fn lemma_payload(player1: Position, player2: Position, ball: Position)
        ensures
            Self::spec_new(player1, player2, ball).spec_payload() == (player1, player2, ball),
    {
    }

    pub fn new(player1: Position, player2: Position, ball: Position) -> (r: Self)
        ensures
            r == Self::spec_new(player1, player2, ball),
            r.spec_payload() == (player1, player2, ball),
    {
        PositionPacket { player1, player2, ball }
    }

    pub fn get_payload(&self) -> (r: (&Position, &Position, &Position))
        ensures
            (*r.0, *r.1, *r.2) == self.spec_payload(),
    {
        (&self.player1, &self.player2, &self.ball)
    }
}

/// The running tally of a match, by seat.
#[derive(Debug, PartialEq, Eq, Structural, Copy, Clone)]
pub struct ScorePacket {
    player1: u8,
    player2: u8,
}

impl ScorePacket {
    pub closed spec fn spec_payload(&self) -> (u8, u8) {
        (self.player1, self.player2)
    }

    /// The tally with these two counters.
    pub closed spec fn spec_new(player1: u8, player2: u8) -> Self {
        ScorePacket { player1, player2 }
    }

    /// A tally is made of its two counters and of nothing else.
    pub proof fn lemma_parts(self)
        ensures
            self == Self::spec_new(self.spec_payload().0, self.spec_payload().1),
    {
    }

    /// The counters of a tally are those it was made from.
    pub proof fn lemma_payload(player1: u8, player2: u8)
        ensures
            Self::spec_new(player1, player2).spec_payload() == (player1, player2),
    {
    }

    pub fn new(player1: u8, player2: u8) -> (r: Self)
        ensures
            r == Self::spec_new(player1, player2),
            r.spec_payload() == (player1, player2),
    {
        ScorePacket { player1, player2 }
    }

    pub fn get_payload(&self) -> (r: (u8, u8))
        ensures
            r == self.spec_payload(),
    {
        (self.player1, self.player2)
    }

}

/// A movement intent together with the seat it is meant for.
#[derive(Debug, PartialEq, Eq, Structural, Copy, Clone)]
pub struct MovementPacket {
    player_id: PlayerId,
    movement: Movement,
}

impl MovementPacket {
    pub closed spec fn spec_payload(&self) -> (PlayerId, Movement) {
        (self.player_id, self.movement)
    }

    /// The command that carries this seat and this intent.
    pub closed spec fn spec_new(player_id: PlayerId, movement: Movement) -> Self {
        MovementPacket { player_id, movement }
    }

    /// A command is made of its seat and its intent and of nothing else.
    pub proof fn lemma_parts(self)
        ensures
            self == Self::spec_new(self.spec_payload().0, self.spec_payload().1),
    {
    }

    /// The seat and the intent of a command are those it was made from.
    pub proof fn lemma_payload(player_id: PlayerId, movement: Movement)
        ensures
            Self::spec_new(player_id, movement).spec_payload() == (player_id, movement),
    {
    }

    pub fn new(player_id: PlayerId, movement: Movement) -> (r: Self)
        ensures
            r == Self::spec_new(player_id, movement),
            r.spec_payload() == (player_id, movement),
    {
        MovementPacket { player_id, movement }
    }

    pub fn get_payload(&self) -> (r: (&PlayerId, &Movement))
        ensures
            (*r.0, *r.1) == self.spec_payload(),
    {
        (&self.player_id, &self.movement)
    }
}

/// What a client sends to the server.
#[derive(Debug, Clone)]
pub enum ClientMessage {
    Connect(),
    Disconnect(PlayerId),
    MovementCommand(MovementPacket),
    ConnectionAck(),
    Ack(String),
    Error(ClientError),
}

/// What the server sends to a client.
#[derive(Debug, Clone)]
pub enum ServerMessage {
    PlayerJoined(PlayerId),
    PlayerLeft(PlayerId),
    PositionUpdate(PositionPacket),
    ScoreUpdate(ScorePacket),
    GameStateChange(GameState),
    Ack(String),
    Error(ServerError),
}

/// Mathematical value of a [`ClientMessage`].
pub enum ClientMessageView {
    Connect,
    Disconnect(PlayerId),
    MovementCommand(MovementPacket),
    ConnectionAck,
    Ack(Seq<char>),
    Error(ClientErrorView),
}

/// Mathematical value of a [`ServerMessage`].
pub enum ServerMessageView {
    PlayerJoined(PlayerId),
    PlayerLeft(PlayerId),
    PositionUpdate(PositionPacket),
    ScoreUpdate(ScorePacket),
    GameStateChange(GameState),
    Ack(Seq<char>),
    Error(ServerErrorView),
}

impl View for ClientMessage {
    type V = ClientMessageView;

    open spec fn view(&self) -> ClientMessageView {
        match *self {
            ClientMessage::Connect() => ClientMessageView::Connect,
            ClientMessage::Disconnect(id) => ClientMessageView::Disconnect(id),
            ClientMessage::MovementCommand(m) => ClientMessageView::MovementCommand(m),
            ClientMessage::ConnectionAck() => ClientMessageView::ConnectionAck,
            ClientMessage::Ack(s) => ClientMessageView::Ack(s@),
            ClientMessage::Error(e) => ClientMessageView::Error(e@),
        }
    }
}

impl View for ServerMessage {
    type V = ServerMessageView;

    open spec fn view(&self) -> ServerMessageView {
        match *self {
            ServerMessage::PlayerJoined(id) => ServerMessageView::PlayerJoined(id),
            ServerMessage::PlayerLeft(id) => ServerMessageView::PlayerLeft(id),
            ServerMessage::PositionUpdate(p) => ServerMessageView::PositionUpdate(p),
            ServerMessage::ScoreUpdate(s) => ServerMessageView::ScoreUpdate(s),
            ServerMessage::GameStateChange(g) => ServerMessageView::GameStateChange(g),
            ServerMessage::Ack(s) => ServerMessageView::Ack(s@),
            ServerMessage::Error(e) => ServerMessageView::Error(e@),
        }
    }
}

/// The envelope around every wire message.
#[derive(Debug, Copy, Clone)]
pub struct NetworkPacket<T> {
    sequence: u32,
    timestamp: u64,
    payload: T,
}

/// Mathematical value of an envelope whose payload has value `P`.
pub struct PacketView<P> {
    pub sequence: u32,
    pub timestamp: u64,
    pub payload: P,
}

impl<T: View> View for NetworkPacket<T> {
    type V = PacketView<T::V>;

    closed spec fn view(&self) -> PacketView<T::V> {
        PacketView { sequence: self.sequence, timestamp: self.timestamp, payload: self.payload@ }
    }
}

impl<T> NetworkPacket<T> {
    pub closed spec fn spec_sequence(&self) -> u32 {
        self.sequence
    }

    pub closed spec fn spec_timestamp(&self) -> u64 {
        self.timestamp
    }

    pub closed spec fn spec_payload(&self) -> T {
        self.payload
    }

    pub fn new(sequence: u32, timestamp: u64, payload: T) -> (r: Self)
        ensures
            r.spec_sequence() == sequence,
            r.spec_timestamp() == timestamp,
            r.spec_payload() == payload,
    {
        NetworkPacket { sequence, timestamp, payload }
    }

    pub fn get_sequence(&self) -> (r: u32)
        ensures
            r == self.spec_sequence(),
    {
        self.sequence
    }

    pub fn get_timestamp(&self) -> (r: u64)
        ensures
            r == self.spec_timestamp(),
    {
        self.timestamp
    }

    pub fn get_payload(&self) -> (r: &T)
        ensures
            *r == self.spec_payload(),
    {
        &self.payload
    }

    pub fn set_sequence(&mut self, sequence: u32)
        ensures
            final(self).spec_sequence() == sequence,
            final(self).spec_timestamp() == old(self).spec_timestamp(),
            final(self).spec_payload() == old(self).spec_payload(),
    {
        self.sequence = sequence;
    }

    pub fn set_timesamp(&mut self, timestamp: u64)
        ensures
            final(self).spec_sequence() == old(self).spec_sequence(),
            final(self).spec_timestamp() == timestamp,
            final(self).spec_payload() == old(self).spec_payload(),
    {
        self.timestamp = timestamp;
    }

    pub fn set_payload(&mut self, payload: T)
        ensures
            final(self).spec_sequence() == old(self).spec_sequence(),
            final(self).spec_timestamp() == old(self).spec_timestamp(),
            final(self).spec_payload() == payload,
    {
        self.payload = payload;
    }
}

impl<T: View> NetworkPacket<T> {
    /// The value of an envelope is made of its three parts.
    pub proof fn lemma_view_parts(&self)
        ensures
            self@.sequence == self.spec_sequence(),
            self@.timestamp == self.spec_timestamp(),
            self@.payload == self.spec_payload()@,
    {
    }
}

pub type ClientNetworkMessage = NetworkPacket<ClientMessage>;

pub type ServerNetworkMessage = NetworkPacket<ServerMessage>;

} // verus!
