//! Error values of the engine. They travel on the wire as ordinary payloads,
//! so each carries plain text rather than a transport exception.

use vstd::prelude::*;

verus! {

/// Failure of a match operation.
#[derive(Debug, Clone)]
pub enum GameError {
    Io(String),
    Utf8(String),
}

/// Failure reported by the server to a client.
#[derive(Debug, Clone)]
pub enum ServerError {
    Io(String),
    Utf8(String),
    PlayerNotFound,
    GameFull,
    SeatTaken,
}

/// Failure reported by a client to the server.
#[derive(Debug, Clone)]
pub enum ClientError {
    Io(String),
    Utf8(String),
    Serialization(String),
}

/// Mathematical value of a [`GameError`].
pub enum GameErrorView {
    Io(Seq<char>),
    Utf8(Seq<char>),
}

/// Mathematical value of a [`ServerError`].
pub enum ServerErrorView {
    Io(Seq<char>),
    Utf8(Seq<char>),
    PlayerNotFound,
    GameFull,
    SeatTaken,
}

/// Mathematical value of a [`ClientError`].
pub enum ClientErrorView {
    Io(Seq<char>),
    Utf8(Seq<char>),
    Serialization(Seq<char>),
}

impl View for GameError {
    type V = GameErrorView;

    open spec fn view(&self) -> GameErrorView {
        match *self {
            GameError::Io(s) => GameErrorView::Io(s@),
            GameError::Utf8(s) => GameErrorView::Utf8(s@),
        }
    }
}

impl View for ServerError {
    type V = ServerErrorView;

    open spec fn view(&self) -> ServerErrorView {
        match *self {
            ServerError::Io(s) => ServerErrorView::Io(s@),
            ServerError::Utf8(s) => ServerErrorView::Utf8(s@),
            ServerError::PlayerNotFound => ServerErrorView::PlayerNotFound,
            ServerError::GameFull => ServerErrorView::GameFull,
            ServerError::SeatTaken => ServerErrorView::SeatTaken,
        }
    }
}

impl View for ClientError {
    type V = ClientErrorView;

    open spec fn view(&self) -> ClientErrorView {
        match *self {
            ClientError::Io(s) => ClientErrorView::Io(s@),
            ClientError::Utf8(s) => ClientErrorView::Utf8(s@),
            ClientError::Serialization(s) => ClientErrorView::Serialization(s@),
        }
    }
}

} // verus!
