//! The dispatcher: what each client message does to a match, and what the
//! server answers.
//!
//! Every message is handled on its own, whatever came before it; the
//! envelope's sequence number is copied into the answer and never compared.
//! No message is dropped without an answer.

use vstd::prelude::*;
use crate::address::NetAddr;
use crate::ball::spec_served;
use crate::error::{ServerError, ServerErrorView};
use crate::model::{
    ClientMessage, ClientMessageView, GameState, Movement, NetworkPacket, PlayerId, ServerMessage,
    ServerMessageView,
};
use crate::player::{Player, lemma_repeated_command, spec_accelerate};
use crate::registry::{PlayerConnection, PlayerManager, spec_lined_up, spec_refreshed};
use crate::state::State;

verus! {

/// The seat that the next player to connect is given: seat 1 if it is free,
/// else seat 2.
pub open spec fn spec_free_seat(players: PlayerManager) -> PlayerId {
    if players.spec_seat(PlayerId::Player1) is None {
        PlayerId::Player1
    } else {
        PlayerId::Player2
    }
}

/// The answer to a message, given the seats as they were when it arrived.
pub open spec fn spec_reply(players: PlayerManager, message: ClientMessageView)
    -> ServerMessageView {
    match message {
        ClientMessageView::Connect => if players.spec_count() == 2 {
            ServerMessageView::Error(ServerErrorView::GameFull)
        } else {
            ServerMessageView::PlayerJoined(spec_free_seat(players))
        },
        ClientMessageView::Disconnect(id) => if players.spec_seat(id) is Some {
            ServerMessageView::PlayerLeft(id)
        } else {
            ServerMessageView::Error(ServerErrorView::PlayerNotFound)
        },
        ClientMessageView::MovementCommand(m) => if players.spec_seat(m.spec_payload().0) is Some {
            ServerMessageView::Ack("Movement received"@)
        } else {
            ServerMessageView::Error(ServerErrorView::PlayerNotFound)
        },
        ClientMessageView::ConnectionAck => ServerMessageView::Ack("Connection acknowledged"@),
        ClientMessageView::Ack(_) => ServerMessageView::Ack("Acknowledgement received"@),
        ClientMessageView::Error(_) => ServerMessageView::Ack("Error report received"@),
    }
}

/// The match differs from what it was only in that the sender's seats are
/// marked as heard from.
pub open spec fn spec_only_refreshed(before: State, after: State, addr: NetAddr, now: u64) -> bool {
    &&& after.spec_ball() == before.spec_ball()
    &&& after.spec_same_course(&before)
    &&& forall|id: PlayerId| #[trigger]
        after.spec_players().spec_seat(id) == spec_refreshed(
            before.spec_players().spec_seat(id),
            addr,
            now,
        )
}

/// A seat after a player from `addr` has joined in seat `seat` at `now`.
pub open spec fn spec_seat_joined(
    before: Option<PlayerConnection>,
    id: PlayerId,
    seat: PlayerId,
    addr: NetAddr,
    now: u64,
) -> Option<PlayerConnection> {
    if id == seat {
        Some(PlayerConnection { player: Player::spec_new(seat, addr), last_seen: now })
    } else {
        spec_refreshed(before, addr, now)
    }
}

/// The match after a player from `addr` has taken the free seat at `now`.
/// If that fills a waiting match, a new match starts: the paddles are lined
/// up, the tally cleared and the ball served.
pub open spec fn spec_joined(before: State, after: State, addr: NetAddr, now: u64) -> bool {
    let seat = spec_free_seat(before.spec_players());
    let starts = before.spec_players().spec_count() == 1 && before.spec_state()
        == GameState::WaitingForPlayers;
    &&& forall|id: PlayerId| #[trigger]
        after.spec_players().spec_seat(id) == if starts {
            spec_lined_up(
                spec_seat_joined(before.spec_players().spec_seat(id), id, seat, addr, now),
                id,
            )
        } else {
            spec_seat_joined(before.spec_players().spec_seat(id), id, seat, addr, now)
        }
    &&& if starts {
        &&& after.spec_state() == GameState::GameStarted
        &&& after.spec_scores() == (0u8, 0u8)
        &&& after.spec_last_update() == now
        &&& after.spec_duration() == 0
        &&& spec_served(after.spec_ball()@)
    } else {
        &&& after.spec_ball() == before.spec_ball()
        &&& after.spec_same_course(&before)
    }
}

/// The match after seat `id` has been vacated: a match that was under way
/// waits for players again.
pub open spec fn spec_left(before: State, after: State, id: PlayerId, addr: NetAddr, now: u64)
    -> bool {
    &&& after.spec_players().spec_seat(id) is None
    &&& after.spec_players().spec_seat(id.spec_opponent()) == spec_refreshed(
        before.spec_players().spec_seat(id.spec_opponent()),
        addr,
        now,
    )
    &&& after.spec_ball() == before.spec_ball()
    &&& after.spec_scores() == before.spec_scores()
    &&& after.spec_last_update() == before.spec_last_update()
    &&& after.spec_duration() == before.spec_duration()
    &&& after.spec_state() == if before.spec_state() == GameState::GameStarted {
        GameState::WaitingForPlayers
    } else {
        before.spec_state()
    }
}

/// The match after the paddle in seat `id` has taken a movement command:
/// only that paddle's velocity has changed, by one acceleration step.
pub open spec fn spec_moved(
    before: State,
    after: State,
    id: PlayerId,
    movement: Movement,
    addr: NetAddr,
    now: u64,
) -> bool {
    let seat = spec_refreshed(before.spec_players().spec_seat(id), addr, now);
    &&& after.spec_ball() == before.spec_ball()
    &&& after.spec_same_course(&before)
    &&& after.spec_players().spec_seat(id.spec_opponent()) == spec_refreshed(
        before.spec_players().spec_seat(id.spec_opponent()),
        addr,
        now,
    )
    &&& after.spec_players().spec_seat(id) == match seat {
        Some(c) => Some(
            PlayerConnection {
                player: c.player.spec_commanded(movement),
                last_seen: c.last_seen,
            },
        ),
        None => None,
    }
}

/// How a message changes a match.
pub open spec fn spec_handled(
    before: State,
    after: State,
    message: ClientMessageView,
    addr: NetAddr,
    now: u64,
) -> bool {
    match message {
        ClientMessageView::Connect => if before.spec_players().spec_count() == 2 {
            spec_only_refreshed(before, after, addr, now)
        } else {
            spec_joined(before, after, addr, now)
        },
        ClientMessageView::Disconnect(id) => spec_left(before, after, id, addr, now),
        ClientMessageView::MovementCommand(m) => spec_moved(
            before,
            after,
            m.spec_payload().0,
            m.spec_payload().1,
            addr,
            now,
        ),
        _ => spec_only_refreshed(before, after, addr, now),
    }
}

/// No message ends a match: a match that is over after a message was
/// handled was over before.
pub proof fn lemma_no_message_ends_a_match(
    before: State,
    after: State,
    message: ClientMessageView,
    addr: NetAddr,
    now: u64,
)
    requires
        spec_handled(before, after, message, addr, now),
        after.spec_state() == GameState::GameOver,
    ensures
        before.spec_state() == GameState::GameOver,
{
}

/// Handling the same movement command twice, with no tick between, changes
/// the paddle's velocity by the same acceleration step each time and changes
/// nothing else: not the paddle's position, not the ball, not the tally, not
/// the phase.
pub proof fn lemma_movement_handled_twice(
    start: State,
    once: State,
    twice: State,
    id: PlayerId,
    movement: Movement,
    addr: NetAddr,
    first: u64,
    second: u64,
)
    requires
        start.wf(),
        start.spec_players().spec_seat(id) is Some,
        spec_moved(start, once, id, movement, addr, first),
        spec_moved(once, twice, id, movement, addr, second),
    ensures
        once.spec_players().spec_seat(id) is Some,
        twice.spec_players().spec_seat(id) is Some,
        once.spec_players().spec_seat(id).unwrap().player.spec_velocity() == spec_accelerate(
            start.spec_players().spec_seat(id).unwrap().player.spec_velocity() as int,
            movement,
        ),
        twice.spec_players().spec_seat(id).unwrap().player.spec_velocity() == spec_accelerate(
            once.spec_players().spec_seat(id).unwrap().player.spec_velocity() as int,
            movement,
        ),
        twice.spec_players().spec_seat(id).unwrap().player.spec_position()
            == start.spec_players().spec_seat(id).unwrap().player.spec_position(),
        twice.spec_ball() == start.spec_ball(),
        twice.spec_same_course(&start),
{
    let before = start.spec_players().spec_seat(id).unwrap().player;
    let slow = before.spec_velocity();
    let v1 = spec_accelerate(slow as int, movement) as i64;
    lemma_repeated_command(slow as int, movement);
    before.lemma_derived(before.spec_position(), v1);
    let after = once.spec_players().spec_seat(id).unwrap().player;
    assert(after == before.spec_commanded(movement));
    let v2 = spec_accelerate(v1 as int, movement) as i64;
    lemma_repeated_command(v1 as int, movement);
    after.lemma_derived(after.spec_position(), v2);
}

/// The dispatcher of one match.
pub struct PacketHandler {
    pub game_state: State,
}

impl PacketHandler {
    pub fn new(game_state: State) -> (r: Self)
        ensures
            r.game_state == game_state,
    {
        PacketHandler { game_state }
    }

    /// Handles one client message that arrived from `addr` at `now`, and
    /// returns the answer, which carries the message's sequence number and
    /// timestamp.
    ///
    /// The sender's seats are marked as heard from. `Connect` seats the
    /// sender in the free seat, and starts a match when that fills a
    /// waiting one; with both seats occupied it is refused with `GameFull`
    /// and changes no seat. `Disconnect` vacates a seat, `MovementCommand`
    /// steers a paddle; either is refused with `PlayerNotFound` when nobody
    /// sits in the seat it names. Every other message is acknowledged.
    pub fn handle_packet(&mut self, packet: NetworkPacket<ClientMessage>, addr: NetAddr, now: u64)
        -> (r: Option<NetworkPacket<ServerMessage>>)
        requires
            old(self).game_state.wf(),
        ensures
            final(self).game_state.wf(),
            old(self).game_state.spec_consistent() ==> final(self).game_state.spec_consistent(),
            r is Some,
            r.unwrap()@.sequence == packet@.sequence,
            r.unwrap()@.timestamp == packet@.timestamp,
            r.unwrap()@.payload == spec_reply(old(self).game_state.spec_players(), packet@.payload),
            spec_handled(old(self).game_state, final(self).game_state, packet@.payload, addr, now),
    {
        proof {
            packet.lemma_view_parts();
        }
        let ghost before = self.game_state;
        self.game_state.update_last_seen(addr, now);
        let ghost refreshed = self.game_state;
        proof {
            assert(refreshed.spec_players().spec_seat(PlayerId::Player1) == spec_refreshed(
                before.spec_players().spec_seat(PlayerId::Player1),
                addr,
                now,
            ));
            assert(refreshed.spec_players().spec_seat(PlayerId::Player2) == spec_refreshed(
                before.spec_players().spec_seat(PlayerId::Player2),
                addr,
                now,
            ));
        }
        let sequence = packet.get_sequence();
        let timestamp = packet.get_timestamp();
        let reply: ServerMessage = match packet.get_payload() {
            ClientMessage::Connect() => {
                let count = self.game_state.get_player_count();
                if count >= 2 {
                    ServerMessage::Error(ServerError::GameFull)
                } else {
                    let seat = if self.game_state.players().get_player(PlayerId::Player1).is_none() {
                        PlayerId::Player1
                    } else {
                        PlayerId::Player2
                    };
                    let added = self.game_state.add_player(seat, addr, now);
                    let ghost joined = self.game_state;
                    proof {
                        assert(added is Ok);
                        assert(seat == spec_free_seat(before.spec_players()));
                        assert forall|id: PlayerId| #[trigger]
                            joined.spec_players().spec_seat(id) == spec_seat_joined(
                                before.spec_players().spec_seat(id),
                                id,
                                seat,
                                addr,
                                now,
                            ) by {
                            if id != seat {
                                assert(id == seat.spec_opponent());
                            }
                        }
                    }
                    if self.game_state.get_player_count() == 2 {
                        let _ = self.game_state.start_new_match(now);
                    }
                    ServerMessage::PlayerJoined(seat)
                }
            },
            ClientMessage::Disconnect(player_id) => {
                match self.game_state.remove_player(*player_id) {
                    Ok(()) => ServerMessage::PlayerLeft(*player_id),
                    Err(e) => ServerMessage::Error(e),
                }
            },
            ClientMessage::MovementCommand(movement_packet) => {
                let (player_id, movement) = movement_packet.get_payload();
                if self.game_state.move_player(*player_id, *movement) {
                    ServerMessage::Ack("Movement received".to_owned())
                } else {
                    ServerMessage::Error(ServerError::PlayerNotFound)
                }
            },
            ClientMessage::ConnectionAck() => ServerMessage::Ack(
                "Connection acknowledged".to_owned(),
            ),
            ClientMessage::Ack(_) => ServerMessage::Ack("Acknowledgement received".to_owned()),
            ClientMessage::Error(_) => ServerMessage::Ack("Error report received".to_owned()),
        };
        let out = NetworkPacket::new(sequence, timestamp, reply);
        proof {
            out.lemma_view_parts();
        }
        Some(out)
    }
}

} // verus!
