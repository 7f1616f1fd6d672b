//! The wire format: one envelope per datagram.
//!
//! Numbers are little-endian and of fixed width. An envelope is its sequence
//! number (`u32`), its timestamp (`u64`) and its payload. A payload starts
//! with the index of its variant (`u32`), followed by the variant's fields in
//! order. Text is its length in bytes (`u64`) followed by its UTF-8 bytes.
//! A coordinate is the four bytes of an IEEE-754 single. Bytes after the
//! envelope are ignored.

use vstd::prelude::*;
use vstd::bytes::{
    spec_u32_from_le_bytes, spec_u32_to_le_bytes, spec_u64_from_le_bytes, spec_u64_to_le_bytes,
    u32_from_le_bytes, u32_to_le_bytes, u64_from_le_bytes, u64_to_le_bytes,
    lemma_auto_spec_u32_to_from_le_bytes, lemma_auto_spec_u64_to_from_le_bytes,
};
use vstd::slice::{slice_subrange, slice_to_vec};
use vstd::utf8::{
    decode_utf8, encode_utf8, valid_utf8, encode_utf8_decode_utf8, encode_utf8_valid_utf8,
};
use crate::error::{ClientError, ClientErrorView, ServerError, ServerErrorView};
use crate::model::{
    ClientMessage, ClientMessageView, GameState, Movement, MovementPacket, NetworkPacket,
    PacketView, PlayerId, Position, PositionPacket, ScorePacket, ServerMessage, ServerMessageView,
};

verus! {

/// Why a datagram is not an envelope.
#[derive(Debug, PartialEq, Eq, Structural, Copy, Clone)]
pub enum DecodeError {
    /// The bytes end before the envelope does.
    Truncated,
    /// A variant index names no variant.
    UnknownVariant,
    /// A text field is not valid UTF-8.
    Malformed,
}

/// What parsing gives: a value and the bytes after it, or the reason why the
/// bytes do not start with such a value.
pub type Parsed<T> = Result<(T, Seq<u8>), DecodeError>;

// ---------------------------------------------------------------- format

/// The bytes of a text: its length in bytes, then its UTF-8 encoding.
pub open spec fn spec_text_bytes(s: Seq<char>) -> Seq<u8> {
    spec_u64_to_le_bytes(encode_utf8(s).len() as u64) + encode_utf8(s)
}

/// Whether the length of a text's encoding can be written as a `u64`.
pub open spec fn spec_text_fits(s: Seq<char>) -> bool {
    encode_utf8(s).len() <= u64::MAX
}

pub open spec fn spec_player_id_tag(id: PlayerId) -> u32 {
    match id {
        PlayerId::Player1 => 0,
        PlayerId::Player2 => 1,
    }
}

pub open spec fn spec_movement_tag(m: Movement) -> u32 {
    match m {
        Movement::Up => 0,
        Movement::Down => 1,
        Movement::Stop => 2,
    }
}

pub open spec fn spec_game_state_tag(g: GameState) -> u32 {
    match g {
        GameState::WaitingForPlayers => 0,
        GameState::GameStarted => 1,
        GameState::GameOver => 2,
    }
}

pub open spec fn spec_position_bytes(p: Position) -> Seq<u8> {
    spec_u32_to_le_bytes(p.0) + spec_u32_to_le_bytes(p.1)
}

pub open spec fn spec_position_packet_bytes(p: PositionPacket) -> Seq<u8> {
    spec_position_bytes(p.spec_payload().0) + spec_position_bytes(p.spec_payload().1)
        + spec_position_bytes(p.spec_payload().2)
}

pub open spec fn spec_score_packet_bytes(p: ScorePacket) -> Seq<u8> {
    seq![p.spec_payload().0, p.spec_payload().1]
}

pub open spec fn spec_movement_packet_bytes(p: MovementPacket) -> Seq<u8> {
    spec_u32_to_le_bytes(spec_player_id_tag(p.spec_payload().0)) + spec_u32_to_le_bytes(
        spec_movement_tag(p.spec_payload().1),
    )
}

pub open spec fn spec_client_error_bytes(e: ClientErrorView) -> Seq<u8> {
    match e {
        ClientErrorView::Io(s) => spec_u32_to_le_bytes(0) + spec_text_bytes(s),
        ClientErrorView::Utf8(s) => spec_u32_to_le_bytes(1) + spec_text_bytes(s),
        ClientErrorView::Serialization(s) => spec_u32_to_le_bytes(2) + spec_text_bytes(s),
    }
}

pub open spec fn spec_server_error_bytes(e: ServerErrorView) -> Seq<u8> {
    match e {
        ServerErrorView::Io(s) => spec_u32_to_le_bytes(0) + spec_text_bytes(s),
        ServerErrorView::Utf8(s) => spec_u32_to_le_bytes(1) + spec_text_bytes(s),
        ServerErrorView::PlayerNotFound => spec_u32_to_le_bytes(2),
        ServerErrorView::GameFull => spec_u32_to_le_bytes(3),
        ServerErrorView::SeatTaken => spec_u32_to_le_bytes(4),
    }
}

/// The bytes of a client message.
pub open spec fn spec_client_message_bytes(m: ClientMessageView) -> Seq<u8> {
    match m {
        ClientMessageView::Connect => spec_u32_to_le_bytes(0),
        ClientMessageView::Disconnect(id) => spec_u32_to_le_bytes(1) + spec_u32_to_le_bytes(
            spec_player_id_tag(id),
        ),
        ClientMessageView::MovementCommand(p) => spec_u32_to_le_bytes(2)
            + spec_movement_packet_bytes(p),
        ClientMessageView::ConnectionAck => spec_u32_to_le_bytes(3),
        ClientMessageView::Ack(s) => spec_u32_to_le_bytes(4) + spec_text_bytes(s),
        ClientMessageView::Error(e) => spec_u32_to_le_bytes(5) + spec_client_error_bytes(e),
    }
}

/// The bytes of a server message.
pub open spec fn spec_server_message_bytes(m: ServerMessageView) -> Seq<u8> {
    match m {
        ServerMessageView::PlayerJoined(id) => spec_u32_to_le_bytes(0) + spec_u32_to_le_bytes(
            spec_player_id_tag(id),
        ),
        ServerMessageView::PlayerLeft(id) => spec_u32_to_le_bytes(1) + spec_u32_to_le_bytes(
            spec_player_id_tag(id),
        ),
        ServerMessageView::PositionUpdate(p) => spec_u32_to_le_bytes(2)
            + spec_position_packet_bytes(p),
        ServerMessageView::ScoreUpdate(p) => spec_u32_to_le_bytes(3) + spec_score_packet_bytes(p),
        ServerMessageView::GameStateChange(g) => spec_u32_to_le_bytes(4) + spec_u32_to_le_bytes(
            spec_game_state_tag(g),
        ),
        ServerMessageView::Ack(s) => spec_u32_to_le_bytes(5) + spec_text_bytes(s),
        ServerMessageView::Error(e) => spec_u32_to_le_bytes(6) + spec_server_error_bytes(e),
    }
}

/// The bytes of an envelope from a client.
pub open spec fn spec_client_packet_bytes(p: PacketView<ClientMessageView>) -> Seq<u8> {
    spec_u32_to_le_bytes(p.sequence) + spec_u64_to_le_bytes(p.timestamp)
        + spec_client_message_bytes(p.payload)
}

/// The bytes of an envelope from the server.
pub open spec fn spec_server_packet_bytes(p: PacketView<ServerMessageView>) -> Seq<u8> {
    spec_u32_to_le_bytes(p.sequence) + spec_u64_to_le_bytes(p.timestamp)
        + spec_server_message_bytes(p.payload)
}

/// Whether every text of a client message has a length that can be written.
pub open spec fn spec_client_message_fits(m: ClientMessageView) -> bool {
    match m {
        ClientMessageView::Ack(s) => spec_text_fits(s),
        ClientMessageView::Error(ClientErrorView::Io(s)) => spec_text_fits(s),
        ClientMessageView::Error(ClientErrorView::Utf8(s)) => spec_text_fits(s),
        ClientMessageView::Error(ClientErrorView::Serialization(s)) => spec_text_fits(s),
        _ => true,
    }
}

/// Whether every text of a server message has a length that can be written.
pub open spec fn spec_server_message_fits(m: ServerMessageView) -> bool {
    match m {
        ServerMessageView::Ack(s) => spec_text_fits(s),
        ServerMessageView::Error(ServerErrorView::Io(s)) => spec_text_fits(s),
        ServerMessageView::Error(ServerErrorView::Utf8(s)) => spec_text_fits(s),
        _ => true,
    }
}

// --------------------------------------------------------------- parsing

pub open spec fn spec_parse_u8(b: Seq<u8>) -> Parsed<u8> {
    if b.len() < 1 {
        Err(DecodeError::Truncated)
    } else {
        Ok((b[0], b.skip(1)))
    }
}

pub open spec fn spec_parse_u32(b: Seq<u8>) -> Parsed<u32> {
    if b.len() < 4 {
        Err(DecodeError::Truncated)
    } else {
        Ok((spec_u32_from_le_bytes(b.take(4)), b.skip(4)))
    }
}

pub open spec fn spec_parse_u64(b: Seq<u8>) -> Parsed<u64> {
    if b.len() < 8 {
        Err(DecodeError::Truncated)
    } else {
        Ok((spec_u64_from_le_bytes(b.take(8)), b.skip(8)))
    }
}

pub open spec fn spec_parse_text(b: Seq<u8>) -> Parsed<Seq<char>> {
    match spec_parse_u64(b) {
        Ok((n, rest)) => if n > rest.len() {
            Err(DecodeError::Truncated)
        } else if !valid_utf8(rest.take(n as int)) {
            Err(DecodeError::Malformed)
        } else {
            Ok((decode_utf8(rest.take(n as int)), rest.skip(n as int)))
        },
        Err(e) => Err(e),
    }
}

pub open spec fn spec_parse_player_id(b: Seq<u8>) -> Parsed<PlayerId> {
    match spec_parse_u32(b) {
        Ok((tag, rest)) => if tag == 0 {
            Ok((PlayerId::Player1, rest))
        } else if tag == 1 {
            Ok((PlayerId::Player2, rest))
        } else {
            Err(DecodeError::UnknownVariant)
        },
        Err(e) => Err(e),
    }
}

pub open spec fn spec_parse_movement(b: Seq<u8>) -> Parsed<Movement> {
    match spec_parse_u32(b) {
        Ok((tag, rest)) => if tag == 0 {
            Ok((Movement::Up, rest))
        } else if tag == 1 {
            Ok((Movement::Down, rest))
        } else if tag == 2 {
            Ok((Movement::Stop, rest))
        } else {
            Err(DecodeError::UnknownVariant)
        },
        Err(e) => Err(e),
    }
}

pub open spec fn spec_parse_game_state(b: Seq<u8>) -> Parsed<GameState> {
    match spec_parse_u32(b) {
        Ok((tag, rest)) => if tag == 0 {
            Ok((GameState::WaitingForPlayers, rest))
        } else if tag == 1 {
            Ok((GameState::GameStarted, rest))
        } else if tag == 2 {
            Ok((GameState::GameOver, rest))
        } else {
            Err(DecodeError::UnknownVariant)
        },
        Err(e) => Err(e),
    }
}

pub open spec fn spec_parse_position(b: Seq<u8>) -> Parsed<Position> {
    match spec_parse_u32(b) {
        Ok((x, rest)) => match spec_parse_u32(rest) {
            Ok((y, rest2)) => Ok(((x, y), rest2)),
            Err(e) => Err(e),
        },
        Err(e) => Err(e),
    }
}

pub open spec fn spec_parse_position_packet(b: Seq<u8>) -> Parsed<PositionPacket> {
    match spec_parse_position(b) {
        Ok((c1, r1)) => match spec_parse_position(r1) {
            Ok((c2, r2)) => match spec_parse_position(r2) {
                Ok((ball, r3)) => Ok((PositionPacket::spec_new(c1, c2, ball), r3)),
                Err(e) => Err(e),
            },
            Err(e) => Err(e),
        },
        Err(e) => Err(e),
    }
}

pub open spec fn spec_parse_score_packet(b: Seq<u8>) -> Parsed<ScorePacket> {
    match spec_parse_u8(b) {
        Ok((s1, r1)) => match spec_parse_u8(r1) {
            Ok((s2, r2)) => Ok((ScorePacket::spec_new(s1, s2), r2)),
            Err(e) => Err(e),
        },
        Err(e) => Err(e),
    }
}

pub open spec fn spec_parse_movement_packet(b: Seq<u8>) -> Parsed<MovementPacket> {
    match spec_parse_player_id(b) {
        Ok((id, r1)) => match spec_parse_movement(r1) {
            Ok((m, r2)) => Ok((MovementPacket::spec_new(id, m), r2)),
            Err(e) => Err(e),
        },
        Err(e) => Err(e),
    }
}

pub open spec fn spec_parse_client_error(b: Seq<u8>) -> Parsed<ClientErrorView> {
    match spec_parse_u32(b) {
        Ok((tag, rest)) => if tag > 2 {
            Err(DecodeError::UnknownVariant)
        } else {
            match spec_parse_text(rest) {
                Ok((s, r2)) => Ok(
                    (
                        if tag == 0 {
                            ClientErrorView::Io(s)
                        } else if tag == 1 {
                            ClientErrorView::Utf8(s)
                        } else {
                            ClientErrorView::Serialization(s)
                        },
                        r2,
                    ),
                ),
                Err(e) => Err(e),
            }
        },
        Err(e) => Err(e),
    }
}

pub open spec fn spec_parse_server_error(b: Seq<u8>) -> Parsed<ServerErrorView> {
    match spec_parse_u32(b) {
        Ok((tag, rest)) => if tag == 0 || tag == 1 {
            match spec_parse_text(rest) {
                Ok((s, r2)) => Ok(
                    (
                        if tag == 0 {
                            ServerErrorView::Io(s)
                        } else {
                            ServerErrorView::Utf8(s)
                        },
                        r2,
                    ),
                ),
                Err(e) => Err(e),
            }
        } else if tag == 2 {
            Ok((ServerErrorView::PlayerNotFound, rest))
        } else if tag == 3 {
            Ok((ServerErrorView::GameFull, rest))
        } else if tag == 4 {
            Ok((ServerErrorView::SeatTaken, rest))
        } else {
            Err(DecodeError::UnknownVariant)
        },
        Err(e) => Err(e),
    }
}

/// The client message that the bytes start with.
pub open spec fn spec_parse_client_message(b: Seq<u8>) -> Parsed<ClientMessageView> {
    match spec_parse_u32(b) {
        Ok((tag, rest)) => if tag == 0 {
            Ok((ClientMessageView::Connect, rest))
        } else if tag == 1 {
            match spec_parse_player_id(rest) {
                Ok((id, r2)) => Ok((ClientMessageView::Disconnect(id), r2)),
                Err(e) => Err(e),
            }
        } else if tag == 2 {
            match spec_parse_movement_packet(rest) {
                Ok((p, r2)) => Ok((ClientMessageView::MovementCommand(p), r2)),
                Err(e) => Err(e),
            }
        } else if tag == 3 {
            Ok((ClientMessageView::ConnectionAck, rest))
        } else if tag == 4 {
            match spec_parse_text(rest) {
                Ok((s, r2)) => Ok((ClientMessageView::Ack(s), r2)),
                Err(e) => Err(e),
            }
        } else if tag == 5 {
            match spec_parse_client_error(rest) {
                Ok((e, r2)) => Ok((ClientMessageView::Error(e), r2)),
                Err(e) => Err(e),
            }
        } else {
            Err(DecodeError::UnknownVariant)
        },
        Err(e) => Err(e),
    }
}

/// The server message that the bytes start with.
pub open spec fn spec_parse_server_message(b: Seq<u8>) -> Parsed<ServerMessageView> {
    match spec_parse_u32(b) {
        Ok((tag, rest)) => if tag == 0 {
            match spec_parse_player_id(rest) {
                Ok((id, r2)) => Ok((ServerMessageView::PlayerJoined(id), r2)),
                Err(e) => Err(e),
            }
        } else if tag == 1 {
            match spec_parse_player_id(rest) {
                Ok((id, r2)) => Ok((ServerMessageView::PlayerLeft(id), r2)),
                Err(e) => Err(e),
            }
        } else if tag == 2 {
            match spec_parse_position_packet(rest) {
                Ok((p, r2)) => Ok((ServerMessageView::PositionUpdate(p), r2)),
                Err(e) => Err(e),
            }
        } else if tag == 3 {
            match spec_parse_score_packet(rest) {
                Ok((p, r2)) => Ok((ServerMessageView::ScoreUpdate(p), r2)),
                Err(e) => Err(e),
            }
        } else if tag == 4 {
            match spec_parse_game_state(rest) {
                Ok((g, r2)) => Ok((ServerMessageView::GameStateChange(g), r2)),
                Err(e) => Err(e),
            }
        } else if tag == 5 {
            match spec_parse_text(rest) {
                Ok((s, r2)) => Ok((ServerMessageView::Ack(s), r2)),
                Err(e) => Err(e),
            }
        } else if tag == 6 {
            match spec_parse_server_error(rest) {
                Ok((e, r2)) => Ok((ServerMessageView::Error(e), r2)),
                Err(e) => Err(e),
            }
        } else {
            Err(DecodeError::UnknownVariant)
        },
        Err(e) => Err(e),
    }
}

/// The envelope from a client that the bytes start with.
pub open spec fn spec_parse_client_packet(b: Seq<u8>) -> Parsed<PacketView<ClientMessageView>> {
    match spec_parse_u32(b) {
        Ok((sequence, r1)) => match spec_parse_u64(r1) {
            Ok((timestamp, r2)) => match spec_parse_client_message(r2) {
                Ok((payload, r3)) => Ok((PacketView { sequence, timestamp, payload }, r3)),
                Err(e) => Err(e),
            },
            Err(e) => Err(e),
        },
        Err(e) => Err(e),
    }
}

/// The envelope from the server that the bytes start with.
pub open spec fn spec_parse_server_packet(b: Seq<u8>) -> Parsed<PacketView<ServerMessageView>> {
    match spec_parse_u32(b) {
        Ok((sequence, r1)) => match spec_parse_u64(r1) {
            Ok((timestamp, r2)) => match spec_parse_server_message(r2) {
                Ok((payload, r3)) => Ok((PacketView { sequence, timestamp, payload }, r3)),
                Err(e) => Err(e),
            },
            Err(e) => Err(e),
        },
        Err(e) => Err(e),
    }
}

/// What decoding a datagram from a client gives: the envelope it starts
/// with, or the reason why it starts with none.
pub open spec fn spec_decode_client(b: Seq<u8>) -> Result<
    PacketView<ClientMessageView>,
    DecodeError,
> {
    match spec_parse_client_packet(b) {
        Ok((p, _)) => Ok(p),
        Err(e) => Err(e),
    }
}

/// What decoding a datagram from the server gives.
pub open spec fn spec_decode_server(b: Seq<u8>) -> Result<
    PacketView<ServerMessageView>,
    DecodeError,
> {
    match spec_parse_server_packet(b) {
        Ok((p, _)) => Ok(p),
        Err(e) => Err(e),
    }
}

// ------------------------------------------------------------ round trip

/// A number written as four bytes is read back, and the bytes after it are
/// left over.
pub proof fn lemma_parse_u32(v: u32, rest: Seq<u8>)
    ensures
        spec_parse_u32(spec_u32_to_le_bytes(v) + rest) == Ok::<(u32, Seq<u8>), DecodeError>(
            (v, rest),
        ),
        spec_u32_to_le_bytes(v).len() == 4,
{
    lemma_auto_spec_u32_to_from_le_bytes();
    let b = spec_u32_to_le_bytes(v) + rest;
    assert(b.take(4) =~= spec_u32_to_le_bytes(v));
    assert(b.skip(4) =~= rest);
}

/// A number written as eight bytes is read back.
pub proof fn lemma_parse_u64(v: u64, rest: Seq<u8>)
    ensures
        spec_parse_u64(spec_u64_to_le_bytes(v) + rest) == Ok::<(u64, Seq<u8>), DecodeError>(
            (v, rest),
        ),
        spec_u64_to_le_bytes(v).len() == 8,
{
    lemma_auto_spec_u64_to_from_le_bytes();
    let b = spec_u64_to_le_bytes(v) + rest;
    assert(b.take(8) =~= spec_u64_to_le_bytes(v));
    assert(b.skip(8) =~= rest);
}

/// A text that was written is read back.
pub proof fn lemma_parse_text(s: Seq<char>, rest: Seq<u8>)
    requires
        spec_text_fits(s),
    ensures
        spec_parse_text(spec_text_bytes(s) + rest) == Ok::<(Seq<char>, Seq<u8>), DecodeError>(
            (s, rest),
        ),
{
    let body = encode_utf8(s);
    let n = body.len() as u64;
    lemma_parse_u64(n, body + rest);
    assert(spec_text_bytes(s) + rest =~= spec_u64_to_le_bytes(n) + (body + rest));
    assert((body + rest).take(n as int) =~= body);
    assert((body + rest).skip(n as int) =~= rest);
    encode_utf8_valid_utf8(s);
    encode_utf8_decode_utf8(s);
}

/// A seat that was written is read back.
pub proof fn lemma_parse_player_id(id: PlayerId, rest: Seq<u8>)
    ensures
        spec_parse_player_id(spec_u32_to_le_bytes(spec_player_id_tag(id)) + rest) == Ok::<
            (PlayerId, Seq<u8>),
            DecodeError,
        >((id, rest)),
{
    lemma_parse_u32(spec_player_id_tag(id), rest);
}

/// A movement intent that was written is read back.
pub proof fn lemma_parse_movement(m: Movement, rest: Seq<u8>)
    ensures
        spec_parse_movement(spec_u32_to_le_bytes(spec_movement_tag(m)) + rest) == Ok::<
            (Movement, Seq<u8>),
            DecodeError,
        >((m, rest)),
{
    lemma_parse_u32(spec_movement_tag(m), rest);
}

/// A phase that was written is read back.
pub proof fn lemma_parse_game_state(g: GameState, rest: Seq<u8>)
    ensures
        spec_parse_game_state(spec_u32_to_le_bytes(spec_game_state_tag(g)) + rest) == Ok::<
            (GameState, Seq<u8>),
            DecodeError,
        >((g, rest)),
{
    lemma_parse_u32(spec_game_state_tag(g), rest);
}

/// A point that was written is read back, whatever its bit patterns.
pub proof fn lemma_parse_position(p: Position, rest: Seq<u8>)
    ensures
        spec_parse_position(spec_position_bytes(p) + rest) == Ok::<
            (Position, Seq<u8>),
            DecodeError,
        >((p, rest)),
{
    lemma_parse_u32(p.0, spec_u32_to_le_bytes(p.1) + rest);
    lemma_parse_u32(p.1, rest);
    assert(spec_position_bytes(p) + rest =~= spec_u32_to_le_bytes(p.0) + (spec_u32_to_le_bytes(p.1)
        + rest));
}

/// Three points that were written are read back.
pub proof fn lemma_parse_position_packet(p: PositionPacket, rest: Seq<u8>)
    ensures
        spec_parse_position_packet(spec_position_packet_bytes(p) + rest) == Ok::<
            (PositionPacket, Seq<u8>),
            DecodeError,
        >((p, rest)),
{
    let (a, b, c) = p.spec_payload();
    lemma_parse_position(a, spec_position_bytes(b) + (spec_position_bytes(c) + rest));
    lemma_parse_position(b, spec_position_bytes(c) + rest);
    lemma_parse_position(c, rest);
    assert(spec_position_packet_bytes(p) + rest =~= spec_position_bytes(a) + (spec_position_bytes(
        b,
    ) + (spec_position_bytes(c) + rest)));
    p.lemma_parts();
}

/// A tally that was written is read back.
pub proof fn lemma_parse_score_packet(p: ScorePacket, rest: Seq<u8>)
    ensures
        spec_parse_score_packet(spec_score_packet_bytes(p) + rest) == Ok::<
            (ScorePacket, Seq<u8>),
            DecodeError,
        >((p, rest)),
{
    let b = spec_score_packet_bytes(p) + rest;
    assert(b.skip(1).skip(1) =~= rest);
    p.lemma_parts();
}

/// A movement command that was written is read back.
pub proof fn lemma_parse_movement_packet(p: MovementPacket, rest: Seq<u8>)
    ensures
        spec_parse_movement_packet(spec_movement_packet_bytes(p) + rest) == Ok::<
            (MovementPacket, Seq<u8>),
            DecodeError,
        >((p, rest)),
{
    let (id, m) = p.spec_payload();
    lemma_parse_player_id(id, spec_u32_to_le_bytes(spec_movement_tag(m)) + rest);
    lemma_parse_movement(m, rest);
    assert(spec_movement_packet_bytes(p) + rest =~= spec_u32_to_le_bytes(spec_player_id_tag(id)) + (
    spec_u32_to_le_bytes(spec_movement_tag(m)) + rest));
    p.lemma_parts();
}

/// A client's error report that was written is read back.
pub proof fn lemma_parse_client_error(e: ClientErrorView, rest: Seq<u8>)
    requires
        spec_client_message_fits(ClientMessageView::Error(e)),
    ensures
        spec_parse_client_error(spec_client_error_bytes(e) + rest) == Ok::<
            (ClientErrorView, Seq<u8>),
            DecodeError,
        >((e, rest)),
{
    match e {
        ClientErrorView::Io(s) => {
            lemma_parse_u32(0, spec_text_bytes(s) + rest);
            lemma_parse_text(s, rest);
            assert(spec_client_error_bytes(e) + rest =~= spec_u32_to_le_bytes(0) + (spec_text_bytes(
                s,
            ) + rest));
        },
        ClientErrorView::Utf8(s) => {
            lemma_parse_u32(1, spec_text_bytes(s) + rest);
            lemma_parse_text(s, rest);
            assert(spec_client_error_bytes(e) + rest =~= spec_u32_to_le_bytes(1) + (spec_text_bytes(
                s,
            ) + rest));
        },
        ClientErrorView::Serialization(s) => {
            lemma_parse_u32(2, spec_text_bytes(s) + rest);
            lemma_parse_text(s, rest);
            assert(spec_client_error_bytes(e) + rest =~= spec_u32_to_le_bytes(2) + (spec_text_bytes(
                s,
            ) + rest));
        },
    }
}

/// A server's error report that was written is read back.
pub proof fn lemma_parse_server_error(e: ServerErrorView, rest: Seq<u8>)
    requires
        spec_server_message_fits(ServerMessageView::Error(e)),
    ensures
        spec_parse_server_error(spec_server_error_bytes(e) + rest) == Ok::<
            (ServerErrorView, Seq<u8>),
            DecodeError,
        >((e, rest)),
{
    match e {
        ServerErrorView::Io(s) => {
            lemma_parse_u32(0, spec_text_bytes(s) + rest);
            lemma_parse_text(s, rest);
            assert(spec_server_error_bytes(e) + rest =~= spec_u32_to_le_bytes(0) + (spec_text_bytes(
                s,
            ) + rest));
        },
        ServerErrorView::Utf8(s) => {
            lemma_parse_u32(1, spec_text_bytes(s) + rest);
            lemma_parse_text(s, rest);
            assert(spec_server_error_bytes(e) + rest =~= spec_u32_to_le_bytes(1) + (spec_text_bytes(
                s,
            ) + rest));
        },
        ServerErrorView::PlayerNotFound => {
            lemma_parse_u32(2, rest);
        },
        ServerErrorView::GameFull => {
            lemma_parse_u32(3, rest);
        },
        ServerErrorView::SeatTaken => {
            lemma_parse_u32(4, rest);
        },
    }
}

/// A client message that was written is read back.
pub proof fn lemma_parse_client_message(m: ClientMessageView, rest: Seq<u8>)
    requires
        spec_client_message_fits(m),
    ensures
        spec_parse_client_message(spec_client_message_bytes(m) + rest) == Ok::<
            (ClientMessageView, Seq<u8>),
            DecodeError,
        >((m, rest)),
{
    match m {
        ClientMessageView::Connect => {
            lemma_parse_u32(0, rest);
        },
        ClientMessageView::Disconnect(id) => {
            let body = spec_u32_to_le_bytes(spec_player_id_tag(id));
            lemma_parse_u32(1, body + rest);
            lemma_parse_player_id(id, rest);
            assert(spec_client_message_bytes(m) + rest =~= spec_u32_to_le_bytes(1) + (body + rest));
        },
        ClientMessageView::MovementCommand(p) => {
            let body = spec_movement_packet_bytes(p);
            lemma_parse_u32(2, body + rest);
            lemma_parse_movement_packet(p, rest);
            assert(spec_client_message_bytes(m) + rest =~= spec_u32_to_le_bytes(2) + (body + rest));
        },
        ClientMessageView::ConnectionAck => {
            lemma_parse_u32(3, rest);
        },
        ClientMessageView::Ack(s) => {
            let body = spec_text_bytes(s);
            lemma_parse_u32(4, body + rest);
            lemma_parse_text(s, rest);
            assert(spec_client_message_bytes(m) + rest =~= spec_u32_to_le_bytes(4) + (body + rest));
        },
        ClientMessageView::Error(e) => {
            let body = spec_client_error_bytes(e);
            lemma_parse_u32(5, body + rest);
            lemma_parse_client_error(e, rest);
            assert(spec_client_message_bytes(m) + rest =~= spec_u32_to_le_bytes(5) + (body + rest));
        },
    }
}

/// A server message that was written is read back.
pub proof fn lemma_parse_server_message(m: ServerMessageView, rest: Seq<u8>)
    requires
        spec_server_message_fits(m),
    ensures
        spec_parse_server_message(spec_server_message_bytes(m) + rest) == Ok::<
            (ServerMessageView, Seq<u8>),
            DecodeError,
        >((m, rest)),
{
    match m {
        ServerMessageView::PlayerJoined(id) => {
            let body = spec_u32_to_le_bytes(spec_player_id_tag(id));
            lemma_parse_u32(0, body + rest);
            lemma_parse_player_id(id, rest);
            assert(spec_server_message_bytes(m) + rest =~= spec_u32_to_le_bytes(0) + (body + rest));
        },
        ServerMessageView::PlayerLeft(id) => {
            let body = spec_u32_to_le_bytes(spec_player_id_tag(id));
            lemma_parse_u32(1, body + rest);
            lemma_parse_player_id(id, rest);
            assert(spec_server_message_bytes(m) + rest =~= spec_u32_to_le_bytes(1) + (body + rest));
        },
        ServerMessageView::PositionUpdate(p) => {
            let body = spec_position_packet_bytes(p);
            lemma_parse_u32(2, body + rest);
            lemma_parse_position_packet(p, rest);
            assert(spec_server_message_bytes(m) + rest =~= spec_u32_to_le_bytes(2) + (body + rest));
        },
        ServerMessageView::ScoreUpdate(p) => {
            let body = spec_score_packet_bytes(p);
            lemma_parse_u32(3, body + rest);
            lemma_parse_score_packet(p, rest);
            assert(spec_server_message_bytes(m) + rest =~= spec_u32_to_le_bytes(3) + (body + rest));
        },
        ServerMessageView::GameStateChange(g) => {
            let body = spec_u32_to_le_bytes(spec_game_state_tag(g));
            lemma_parse_u32(4, body + rest);
            lemma_parse_game_state(g, rest);
            assert(spec_server_message_bytes(m) + rest =~= spec_u32_to_le_bytes(4) + (body + rest));
        },
        ServerMessageView::Ack(s) => {
            let body = spec_text_bytes(s);
            lemma_parse_u32(5, body + rest);
            lemma_parse_text(s, rest);
            assert(spec_server_message_bytes(m) + rest =~= spec_u32_to_le_bytes(5) + (body + rest));
        },
        ServerMessageView::Error(e) => {
            let body = spec_server_error_bytes(e);
            lemma_parse_u32(6, body + rest);
            lemma_parse_server_error(e, rest);
            assert(spec_server_message_bytes(m) + rest =~= spec_u32_to_le_bytes(6) + (body + rest));
        },
    }
}

/// Decoding what was encoded gives the envelope back: for every client
/// message, every sequence number and timestamp, every text including the
/// empty one, and whatever bytes follow the envelope in the datagram.
pub proof fn lemma_client_round_trip(p: PacketView<ClientMessageView>, rest: Seq<u8>)
    requires
        spec_client_message_fits(p.payload),
    ensures
        spec_parse_client_packet(spec_client_packet_bytes(p) + rest) == Ok::<
            (PacketView<ClientMessageView>, Seq<u8>),
            DecodeError,
        >((p, rest)),
        spec_decode_client(spec_client_packet_bytes(p)) == Ok::<
            PacketView<ClientMessageView>,
            DecodeError,
        >(p),
{
    lemma_client_round_trip_with(p, rest);
    lemma_client_round_trip_with(p, Seq::empty());
    assert(spec_client_packet_bytes(p) + Seq::<u8>::empty() =~= spec_client_packet_bytes(p));
}

proof fn lemma_client_round_trip_with(p: PacketView<ClientMessageView>, rest: Seq<u8>)
    requires
        spec_client_message_fits(p.payload),
    ensures
        spec_parse_client_packet(spec_client_packet_bytes(p) + rest) == Ok::<
            (PacketView<ClientMessageView>, Seq<u8>),
            DecodeError,
        >((p, rest)),
{
    let body = spec_client_message_bytes(p.payload);
    lemma_parse_u32(p.sequence, spec_u64_to_le_bytes(p.timestamp) + (body + rest));
    lemma_parse_u64(p.timestamp, body + rest);
    lemma_parse_client_message(p.payload, rest);
    assert(spec_client_packet_bytes(p) + rest =~= spec_u32_to_le_bytes(p.sequence) + (
    spec_u64_to_le_bytes(p.timestamp) + (body + rest)));
}

/// Decoding what was encoded gives the envelope back: for every server
/// message, every sequence number and timestamp, every text including the
/// empty one, every coordinate bit pattern, and whatever bytes follow.
pub proof fn lemma_server_round_trip(p: PacketView<ServerMessageView>, rest: Seq<u8>)
    requires
        spec_server_message_fits(p.payload),
    ensures
        spec_parse_server_packet(spec_server_packet_bytes(p) + rest) == Ok::<
            (PacketView<ServerMessageView>, Seq<u8>),
            DecodeError,
        >((p, rest)),
        spec_decode_server(spec_server_packet_bytes(p)) == Ok::<
            PacketView<ServerMessageView>,
            DecodeError,
        >(p),
{
    lemma_server_round_trip_with(p, rest);
    lemma_server_round_trip_with(p, Seq::empty());
    assert(spec_server_packet_bytes(p) + Seq::<u8>::empty() =~= spec_server_packet_bytes(p));
}

proof fn lemma_server_round_trip_with(p: PacketView<ServerMessageView>, rest: Seq<u8>)
    requires
        spec_server_message_fits(p.payload),
    ensures
        spec_parse_server_packet(spec_server_packet_bytes(p) + rest) == Ok::<
            (PacketView<ServerMessageView>, Seq<u8>),
            DecodeError,
        >((p, rest)),
{
    let body = spec_server_message_bytes(p.payload);
    lemma_parse_u32(p.sequence, spec_u64_to_le_bytes(p.timestamp) + (body + rest));
    lemma_parse_u64(p.timestamp, body + rest);
    lemma_parse_server_message(p.payload, rest);
    assert(spec_server_packet_bytes(p) + rest =~= spec_u32_to_le_bytes(p.sequence) + (
    spec_u64_to_le_bytes(p.timestamp) + (body + rest)));
}

// -------------------------------------------------------------- encoding

fn put_u32(out: &mut Vec<u8>, v: u32)
    ensures
        final(out)@ == old(out)@ + spec_u32_to_le_bytes(v),
{
    let mut b = u32_to_le_bytes(v);
    out.append(&mut b);
}

fn put_u64(out: &mut Vec<u8>, v: u64)
    ensures
        final(out)@ == old(out)@ + spec_u64_to_le_bytes(v),
{
    let mut b = u64_to_le_bytes(v);
    out.append(&mut b);
}

fn put_text(out: &mut Vec<u8>, s: &String)
    ensures
        final(out)@ == old(out)@ + spec_text_bytes(s@),
        spec_text_fits(s@),
{
    let body = s.as_str().as_bytes();
    let mut copy = slice_to_vec(body);
    put_u64(out, body.len() as u64);
    out.append(&mut copy);
    assert(out@ =~= old(out)@ + spec_text_bytes(s@));
}

fn put_player_id(out: &mut Vec<u8>, id: PlayerId)
    ensures
        final(out)@ == old(out)@ + spec_u32_to_le_bytes(spec_player_id_tag(id)),
{
    match id {
        PlayerId::Player1 => put_u32(out, 0),
        PlayerId::Player2 => put_u32(out, 1),
    }
}

fn put_movement(out: &mut Vec<u8>, m: Movement)
    ensures
        final(out)@ == old(out)@ + spec_u32_to_le_bytes(spec_movement_tag(m)),
{
    match m {
        Movement::Up => put_u32(out, 0),
        Movement::Down => put_u32(out, 1),
        Movement::Stop => put_u32(out, 2),
    }
}

fn put_game_state(out: &mut Vec<u8>, g: GameState)
    ensures
        final(out)@ == old(out)@ + spec_u32_to_le_bytes(spec_game_state_tag(g)),
{
    match g {
        GameState::WaitingForPlayers => put_u32(out, 0),
        GameState::GameStarted => put_u32(out, 1),
        GameState::GameOver => put_u32(out, 2),
    }
}

fn put_position(out: &mut Vec<u8>, p: &Position)
    ensures
        final(out)@ == old(out)@ + spec_position_bytes(*p),
{
    put_u32(out, p.0);
    put_u32(out, p.1);
    assert(out@ =~= old(out)@ + spec_position_bytes(*p));
}

fn put_client_error(out: &mut Vec<u8>, e: &ClientError)
    ensures
        final(out)@ == old(out)@ + spec_client_error_bytes(e@),
        spec_client_message_fits(ClientMessageView::Error(e@)),
{
    match e {
        ClientError::Io(s) => {
            put_u32(out, 0);
            put_text(out, s);
        },
        ClientError::Utf8(s) => {
            put_u32(out, 1);
            put_text(out, s);
        },
        ClientError::Serialization(s) => {
            put_u32(out, 2);
            put_text(out, s);
        },
    }
    assert(out@ =~= old(out)@ + spec_client_error_bytes(e@));
}

fn put_server_error(out: &mut Vec<u8>, e: &ServerError)
    ensures
        final(out)@ == old(out)@ + spec_server_error_bytes(e@),
        spec_server_message_fits(ServerMessageView::Error(e@)),
{
    match e {
        ServerError::Io(s) => {
            put_u32(out, 0);
            put_text(out, s);
        },
        ServerError::Utf8(s) => {
            put_u32(out, 1);
            put_text(out, s);
        },
        ServerError::PlayerNotFound => {
            put_u32(out, 2);
        },
        ServerError::GameFull => {
            put_u32(out, 3);
        },
        ServerError::SeatTaken => {
            put_u32(out, 4);
        },
    }
    assert(out@ =~= old(out)@ + spec_server_error_bytes(e@));
}

fn put_client_message(out: &mut Vec<u8>, m: &ClientMessage)
    ensures
        final(out)@ == old(out)@ + spec_client_message_bytes(m@),
        spec_client_message_fits(m@),
{
    match m {
        ClientMessage::Connect() => {
            put_u32(out, 0);
        },
        ClientMessage::Disconnect(id) => {
            put_u32(out, 1);
            put_player_id(out, *id);
        },
        ClientMessage::MovementCommand(p) => {
            let (id, movement) = p.get_payload();
            put_u32(out, 2);
            put_player_id(out, *id);
            put_movement(out, *movement);
        },
        ClientMessage::ConnectionAck() => {
            put_u32(out, 3);
        },
        ClientMessage::Ack(s) => {
            put_u32(out, 4);
            put_text(out, s);
        },
        ClientMessage::Error(e) => {
            put_u32(out, 5);
            put_client_error(out, e);
        },
    }
    assert(out@ =~= old(out)@ + spec_client_message_bytes(m@));
}

fn put_server_message(out: &mut Vec<u8>, m: &ServerMessage)
    ensures
        final(out)@ == old(out)@ + spec_server_message_bytes(m@),
        spec_server_message_fits(m@),
{
    match m {
        ServerMessage::PlayerJoined(id) => {
            put_u32(out, 0);
            put_player_id(out, *id);
        },
        ServerMessage::PlayerLeft(id) => {
            put_u32(out, 1);
            put_player_id(out, *id);
        },
        ServerMessage::PositionUpdate(p) => {
            let (a, b, c) = p.get_payload();
            put_u32(out, 2);
            put_position(out, a);
            put_position(out, b);
            put_position(out, c);
        },
        ServerMessage::ScoreUpdate(p) => {
            let (a, b) = p.get_payload();
            put_u32(out, 3);
            out.push(a);
            out.push(b);
        },
        ServerMessage::GameStateChange(g) => {
            put_u32(out, 4);
            put_game_state(out, *g);
        },
        ServerMessage::Ack(s) => {
            put_u32(out, 5);
            put_text(out, s);
        },
        ServerMessage::Error(e) => {
            put_u32(out, 6);
            put_server_error(out, e);
        },
    }
    assert(out@ =~= old(out)@ + spec_server_message_bytes(m@));
}

/// The datagram for an envelope from a client. Decoding it gives the
/// envelope back.
pub fn encode_client_packet(packet: &NetworkPacket<ClientMessage>) -> (bytes: Vec<u8>)
    ensures
        bytes@ == spec_client_packet_bytes(packet@),
        spec_decode_client(bytes@) == Ok::<PacketView<ClientMessageView>, DecodeError>(packet@),
{
    let mut out: Vec<u8> = Vec::new();
    put_u32(&mut out, packet.get_sequence());
    put_u64(&mut out, packet.get_timestamp());
    put_client_message(&mut out, packet.get_payload());
    proof {
        packet.lemma_view_parts();
        assert(out@ =~= spec_client_packet_bytes(packet@));
        lemma_client_round_trip(packet@, Seq::empty());
    }
    out
}

/// The datagram for an envelope from the server. Decoding it gives the
/// envelope back.
pub fn encode_server_packet(packet: &NetworkPacket<ServerMessage>) -> (bytes: Vec<u8>)
    ensures
        bytes@ == spec_server_packet_bytes(packet@),
        spec_decode_server(bytes@) == Ok::<PacketView<ServerMessageView>, DecodeError>(packet@),
{
    proof {
        packet.lemma_view_parts();
    }
    encode_server_message(packet.get_sequence(), packet.get_timestamp(), packet.get_payload())
}

/// The datagram for the envelope made of a sequence number, a timestamp and
/// a server message. Decoding it gives the three back.
pub fn encode_server_message(sequence: u32, timestamp: u64, payload: &ServerMessage) -> (bytes: Vec<
    u8,
>)
    ensures
        bytes@ == spec_server_packet_bytes(PacketView { sequence, timestamp, payload: payload@ }),
        spec_decode_server(bytes@) == Ok::<PacketView<ServerMessageView>, DecodeError>(
            PacketView { sequence, timestamp, payload: payload@ },
        ),
{
    let mut out: Vec<u8> = Vec::new();
    put_u32(&mut out, sequence);
    put_u64(&mut out, timestamp);
    put_server_message(&mut out, payload);
    proof {
        let view = PacketView { sequence, timestamp, payload: payload@ };
        assert(out@ =~= spec_server_packet_bytes(view));
        lemma_server_round_trip(view, Seq::empty());
    }
    out
}

// -------------------------------------------------------------- decoding

/// Turns bytes into text.
///
/// Trusted: calls `String::from_utf8` of the standard library, which
/// returns the text whose UTF-8 encoding the bytes are, and fails exactly
/// when they are not UTF-8. The failure's detail is dropped.
#[verifier::external_body]
fn text_from_utf8(bytes: Vec<u8>) -> (r: Option<String>)
    ensures
        r is Some <==> valid_utf8(bytes@),
        r is Some ==> r.unwrap()@ == decode_utf8(bytes@),
{
    String::from_utf8(bytes).ok()
}

/// Whether reading a value at `pos` went as parsing the bytes from `pos` on
/// says: the same value, with the cursor moved past it, or the same error.
pub open spec fn spec_read<T>(
    bytes: Seq<u8>,
    pos: usize,
    parsed: Parsed<T>,
    r: Result<(T, usize), DecodeError>,
) -> bool {
    match r {
        Ok((v, next)) => pos <= next <= bytes.len() && parsed == Ok::<(T, Seq<u8>), DecodeError>(
            (v, bytes.skip(next as int)),
        ),
        Err(e) => parsed == Err::<(T, Seq<u8>), DecodeError>(e),
    }
}

fn read_u8(bytes: &[u8], pos: usize) -> (r: Result<(u8, usize), DecodeError>)
    requires
        pos <= bytes@.len(),
    ensures
        spec_read(bytes@, pos, spec_parse_u8(bytes@.skip(pos as int)), r),
{
    if bytes.len() - pos < 1 {
        return Err(DecodeError::Truncated);
    }
    proof {
        assert(bytes@.skip(pos as int).skip(1) =~= bytes@.skip(pos + 1));
    }
    Ok((bytes[pos], pos + 1))
}

fn read_u32(bytes: &[u8], pos: usize) -> (r: Result<(u32, usize), DecodeError>)
    requires
        pos <= bytes@.len(),
    ensures
        spec_read(bytes@, pos, spec_parse_u32(bytes@.skip(pos as int)), r),
{
    if bytes.len() - pos < 4 {
        return Err(DecodeError::Truncated);
    }
    let v = u32_from_le_bytes(slice_subrange(bytes, pos, pos + 4));
    proof {
        assert(bytes@.skip(pos as int).take(4) =~= bytes@.subrange(pos as int, pos + 4));
        assert(bytes@.skip(pos as int).skip(4) =~= bytes@.skip(pos + 4));
    }
    Ok((v, pos + 4))
}

fn read_u64(bytes: &[u8], pos: usize) -> (r: Result<(u64, usize), DecodeError>)
    requires
        pos <= bytes@.len(),
    ensures
        spec_read(bytes@, pos, spec_parse_u64(bytes@.skip(pos as int)), r),
{
    if bytes.len() - pos < 8 {
        return Err(DecodeError::Truncated);
    }
    let v = u64_from_le_bytes(slice_subrange(bytes, pos, pos + 8));
    proof {
        assert(bytes@.skip(pos as int).take(8) =~= bytes@.subrange(pos as int, pos + 8));
        assert(bytes@.skip(pos as int).skip(8) =~= bytes@.skip(pos + 8));
    }
    Ok((v, pos + 8))
}

fn read_text(bytes: &[u8], pos: usize) -> (r: Result<(String, usize), DecodeError>)
    requires
        pos <= bytes@.len(),
    ensures
        match r {
            Ok((s, next)) => pos <= next <= bytes@.len() && spec_parse_text(
                bytes@.skip(pos as int),
            ) == Ok::<(Seq<char>, Seq<u8>), DecodeError>((s@, bytes@.skip(next as int))),
            Err(e) => spec_parse_text(bytes@.skip(pos as int)) == Err::<
                (Seq<char>, Seq<u8>),
                DecodeError,
            >(e),
        },
{
    match read_u64(bytes, pos) {
        Ok((n, start)) => {
            if n > (bytes.len() - start) as u64 {
                return Err(DecodeError::Truncated);
            }
            let len: usize = n as usize;
            let raw = slice_to_vec(slice_subrange(bytes, start, start + len));
            proof {
                assert(bytes@.skip(start as int).take(n as int) =~= bytes@.subrange(
                    start as int,
                    start + len,
                ));
                assert(bytes@.skip(start as int).skip(n as int) =~= bytes@.skip(start + len));
            }
            match text_from_utf8(raw) {
                Some(s) => Ok((s, start + len)),
                None => Err(DecodeError::Malformed),
            }
        },
        Err(e) => Err(e),
    }
}

fn read_player_id(bytes: &[u8], pos: usize) -> (r: Result<(PlayerId, usize), DecodeError>)
    requires
        pos <= bytes@.len(),
    ensures
        spec_read(bytes@, pos, spec_parse_player_id(bytes@.skip(pos as int)), r),
{
    match read_u32(bytes, pos) {
        Ok((tag, next)) => {
            if tag == 0 {
                Ok((PlayerId::Player1, next))
            } else if tag == 1 {
                Ok((PlayerId::Player2, next))
            } else {
                Err(DecodeError::UnknownVariant)
            }
        },
        Err(e) => Err(e),
    }
}

fn read_movement(bytes: &[u8], pos: usize) -> (r: Result<(Movement, usize), DecodeError>)
    requires
        pos <= bytes@.len(),
    ensures
        spec_read(bytes@, pos, spec_parse_movement(bytes@.skip(pos as int)), r),
{
    match read_u32(bytes, pos) {
        Ok((tag, next)) => {
            if tag == 0 {
                Ok((Movement::Up, next))
            } else if tag == 1 {
                Ok((Movement::Down, next))
            } else if tag == 2 {
                Ok((Movement::Stop, next))
            } else {
                Err(DecodeError::UnknownVariant)
            }
        },
        Err(e) => Err(e),
    }
}

fn read_game_state(bytes: &[u8], pos: usize) -> (r: Result<(GameState, usize), DecodeError>)
    requires
        pos <= bytes@.len(),
    ensures
        spec_read(bytes@, pos, spec_parse_game_state(bytes@.skip(pos as int)), r),
{
    match read_u32(bytes, pos) {
        Ok((tag, next)) => {
            if tag == 0 {
                Ok((GameState::WaitingForPlayers, next))
            } else if tag == 1 {
                Ok((GameState::GameStarted, next))
            } else if tag == 2 {
                Ok((GameState::GameOver, next))
            } else {
                Err(DecodeError::UnknownVariant)
            }
        },
        Err(e) => Err(e),
    }
}

fn read_position(bytes: &[u8], pos: usize) -> (r: Result<(Position, usize), DecodeError>)
    requires
        pos <= bytes@.len(),
    ensures
        spec_read(bytes@, pos, spec_parse_position(bytes@.skip(pos as int)), r),
{
    match read_u32(bytes, pos) {
        Ok((x, c1)) => match read_u32(bytes, c1) {
            Ok((y, c2)) => Ok(((x, y), c2)),
            Err(e) => Err(e),
        },
        Err(e) => Err(e),
    }
}

fn read_position_packet(bytes: &[u8], pos: usize) -> (r: Result<
    (PositionPacket, usize),
    DecodeError,
>)
    requires
        pos <= bytes@.len(),
    ensures
        spec_read(bytes@, pos, spec_parse_position_packet(bytes@.skip(pos as int)), r),
{
    match read_position(bytes, pos) {
        Ok((a, c1)) => match read_position(bytes, c1) {
            Ok((b, c2)) => match read_position(bytes, c2) {
                Ok((c, c3)) => Ok((PositionPacket::new(a, b, c), c3)),
                Err(e) => Err(e),
            },
            Err(e) => Err(e),
        },
        Err(e) => Err(e),
    }
}

fn read_score_packet(bytes: &[u8], pos: usize) -> (r: Result<(ScorePacket, usize), DecodeError>)
    requires
        pos <= bytes@.len(),
    ensures
        spec_read(bytes@, pos, spec_parse_score_packet(bytes@.skip(pos as int)), r),
{
    match read_u8(bytes, pos) {
        Ok((a, c1)) => match read_u8(bytes, c1) {
            Ok((b, c2)) => Ok((ScorePacket::new(a, b), c2)),
            Err(e) => Err(e),
        },
        Err(e) => Err(e),
    }
}

fn read_movement_packet(bytes: &[u8], pos: usize) -> (r: Result<
    (MovementPacket, usize),
    DecodeError,
>)
    requires
        pos <= bytes@.len(),
    ensures
        spec_read(bytes@, pos, spec_parse_movement_packet(bytes@.skip(pos as int)), r),
{
    match read_player_id(bytes, pos) {
        Ok((id, c1)) => match read_movement(bytes, c1) {
            Ok((m, c2)) => Ok((MovementPacket::new(id, m), c2)),
            Err(e) => Err(e),
        },
        Err(e) => Err(e),
    }
}

fn read_client_error(bytes: &[u8], pos: usize) -> (r: Result<(ClientError, usize), DecodeError>)
    requires
        pos <= bytes@.len(),
    ensures
        match r {
            Ok((v, next)) => pos <= next <= bytes@.len() && spec_parse_client_error(
                bytes@.skip(pos as int),
            ) == Ok::<(ClientErrorView, Seq<u8>), DecodeError>((v@, bytes@.skip(next as int))),
            Err(e) => spec_parse_client_error(bytes@.skip(pos as int)) == Err::<
                (ClientErrorView, Seq<u8>),
                DecodeError,
            >(e),
        },
{
    match read_u32(bytes, pos) {
        Ok((tag, c1)) => {
            if tag > 2 {
                return Err(DecodeError::UnknownVariant);
            }
            match read_text(bytes, c1) {
                Ok((s, c2)) => {
                    if tag == 0 {
                        Ok((ClientError::Io(s), c2))
                    } else if tag == 1 {
                        Ok((ClientError::Utf8(s), c2))
                    } else {
                        Ok((ClientError::Serialization(s), c2))
                    }
                },
                Err(e) => Err(e),
            }
        },
        Err(e) => Err(e),
    }
}

fn read_server_error(bytes: &[u8], pos: usize) -> (r: Result<(ServerError, usize), DecodeError>)
    requires
        pos <= bytes@.len(),
    ensures
        match r {
            Ok((v, next)) => pos <= next <= bytes@.len() && spec_parse_server_error(
                bytes@.skip(pos as int),
            ) == Ok::<(ServerErrorView, Seq<u8>), DecodeError>((v@, bytes@.skip(next as int))),
            Err(e) => spec_parse_server_error(bytes@.skip(pos as int)) == Err::<
                (ServerErrorView, Seq<u8>),
                DecodeError,
            >(e),
        },
{
    match read_u32(bytes, pos) {
        Ok((tag, c1)) => {
            if tag == 0 || tag == 1 {
                match read_text(bytes, c1) {
                    Ok((s, c2)) => {
                        if tag == 0 {
                            Ok((ServerError::Io(s), c2))
                        } else {
                            Ok((ServerError::Utf8(s), c2))
                        }
                    },
                    Err(e) => Err(e),
                }
            } else if tag == 2 {
                Ok((ServerError::PlayerNotFound, c1))
            } else if tag == 3 {
                Ok((ServerError::GameFull, c1))
            } else if tag == 4 {
                Ok((ServerError::SeatTaken, c1))
            } else {
                Err(DecodeError::UnknownVariant)
            }
        },
        Err(e) => Err(e),
    }
}

fn read_client_message(bytes: &[u8], pos: usize) -> (r: Result<(ClientMessage, usize), DecodeError>)
    requires
        pos <= bytes@.len(),
    ensures
        match r {
            Ok((v, next)) => pos <= next <= bytes@.len() && spec_parse_client_message(
                bytes@.skip(pos as int),
            ) == Ok::<(ClientMessageView, Seq<u8>), DecodeError>((v@, bytes@.skip(next as int))),
            Err(e) => spec_parse_client_message(bytes@.skip(pos as int)) == Err::<
                (ClientMessageView, Seq<u8>),
                DecodeError,
            >(e),
        },
{
    match read_u32(bytes, pos) {
        Ok((tag, c1)) => {
            if tag == 0 {
                Ok((ClientMessage::Connect(), c1))
            } else if tag == 1 {
                match read_player_id(bytes, c1) {
                    Ok((id, c2)) => Ok((ClientMessage::Disconnect(id), c2)),
                    Err(e) => Err(e),
                }
            } else if tag == 2 {
                match read_movement_packet(bytes, c1) {
                    Ok((m, c2)) => Ok((ClientMessage::MovementCommand(m), c2)),
                    Err(e) => Err(e),
                }
            } else if tag == 3 {
                Ok((ClientMessage::ConnectionAck(), c1))
            } else if tag == 4 {
                match read_text(bytes, c1) {
                    Ok((s, c2)) => Ok((ClientMessage::Ack(s), c2)),
                    Err(e) => Err(e),
                }
            } else if tag == 5 {
                match read_client_error(bytes, c1) {
                    Ok((err, c2)) => Ok((ClientMessage::Error(err), c2)),
                    Err(e) => Err(e),
                }
            } else {
                Err(DecodeError::UnknownVariant)
            }
        },
        Err(e) => Err(e),
    }
}

fn read_server_message(bytes: &[u8], pos: usize) -> (r: Result<(ServerMessage, usize), DecodeError>)
    requires
        pos <= bytes@.len(),
    ensures
        match r {
            Ok((v, next)) => pos <= next <= bytes@.len() && spec_parse_server_message(
                bytes@.skip(pos as int),
            ) == Ok::<(ServerMessageView, Seq<u8>), DecodeError>((v@, bytes@.skip(next as int))),
            Err(e) => spec_parse_server_message(bytes@.skip(pos as int)) == Err::<
                (ServerMessageView, Seq<u8>),
                DecodeError,
            >(e),
        },
{
    match read_u32(bytes, pos) {
        Ok((tag, c1)) => {
            if tag == 0 {
                match read_player_id(bytes, c1) {
                    Ok((id, c2)) => Ok((ServerMessage::PlayerJoined(id), c2)),
                    Err(e) => Err(e),
                }
            } else if tag == 1 {
                match read_player_id(bytes, c1) {
                    Ok((id, c2)) => Ok((ServerMessage::PlayerLeft(id), c2)),
                    Err(e) => Err(e),
                }
            } else if tag == 2 {
                match read_position_packet(bytes, c1) {
                    Ok((p, c2)) => Ok((ServerMessage::PositionUpdate(p), c2)),
                    Err(e) => Err(e),
                }
            } else if tag == 3 {
                match read_score_packet(bytes, c1) {
                    Ok((p, c2)) => Ok((ServerMessage::ScoreUpdate(p), c2)),
                    Err(e) => Err(e),
                }
            } else if tag == 4 {
                match read_game_state(bytes, c1) {
                    Ok((g, c2)) => Ok((ServerMessage::GameStateChange(g), c2)),
                    Err(e) => Err(e),
                }
            } else if tag == 5 {
                match read_text(bytes, c1) {
                    Ok((s, c2)) => Ok((ServerMessage::Ack(s), c2)),
                    Err(e) => Err(e),
                }
            } else if tag == 6 {
                match read_server_error(bytes, c1) {
                    Ok((err, c2)) => Ok((ServerMessage::Error(err), c2)),
                    Err(e) => Err(e),
                }
            } else {
                Err(DecodeError::UnknownVariant)
            }
        },
        Err(e) => Err(e),
    }
}

/// Reads the envelope that a datagram from a client starts with.
///
/// Fails with `Truncated` when the bytes end too early, with
/// `UnknownVariant` when a variant index names no variant, and with
/// `Malformed` when a text is not UTF-8; the first fault from the front
/// decides. Bytes after the envelope are ignored.
pub fn decode_client_packet(bytes: &[u8]) -> (r: Result<NetworkPacket<ClientMessage>, DecodeError>)
    ensures
        match r {
            Ok(p) => spec_decode_client(bytes@) == Ok::<PacketView<ClientMessageView>, DecodeError>(
                p@,
            ),
            Err(e) => spec_decode_client(bytes@) == Err::<
                PacketView<ClientMessageView>,
                DecodeError,
            >(e),
        },
{
    proof {
        assert(bytes@.skip(0) =~= bytes@);
    }
    match read_u32(bytes, 0) {
        Ok((sequence, c1)) => match read_u64(bytes, c1) {
            Ok((timestamp, c2)) => match read_client_message(bytes, c2) {
                Ok((payload, _)) => {
                    let packet = NetworkPacket::new(sequence, timestamp, payload);
                    proof {
                        packet.lemma_view_parts();
                    }
                    Ok(packet)
                },
                Err(e) => Err(e),
            },
            Err(e) => Err(e),
        },
        Err(e) => Err(e),
    }
}

/// Reads the envelope that a datagram from the server starts with; see
/// [`decode_client_packet`] for the errors.
pub fn decode_server_packet(bytes: &[u8]) -> (r: Result<NetworkPacket<ServerMessage>, DecodeError>)
    ensures
        match r {
            Ok(p) => spec_decode_server(bytes@) == Ok::<PacketView<ServerMessageView>, DecodeError>(
                p@,
            ),
            Err(e) => spec_decode_server(bytes@) == Err::<
                PacketView<ServerMessageView>,
                DecodeError,
            >(e),
        },
{
    proof {
        assert(bytes@.skip(0) =~= bytes@);
    }
    match read_u32(bytes, 0) {
        Ok((sequence, c1)) => match read_u64(bytes, c1) {
            Ok((timestamp, c2)) => match read_server_message(bytes, c2) {
                Ok((payload, _)) => {
                    let packet = NetworkPacket::new(sequence, timestamp, payload);
                    proof {
                        packet.lemma_view_parts();
                    }
                    Ok(packet)
                },
                Err(e) => Err(e),
            },
            Err(e) => Err(e),
        },
        Err(e) => Err(e),
    }
}

} // verus!
