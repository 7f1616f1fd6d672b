//! The match loop's decisions.
//!
//! The caller owns the socket and the timers. It calls [`GameServer::on_datagram`]
//! for every datagram, [`GameServer::sweep`] and [`GameServer::tick`] on the
//! tick timer, [`GameServer::snapshot`] on the broadcast timer and
//! [`GameServer::pair`] on the matchmaking timer, each under one lock, and
//! sends what they return.

use vstd::prelude::*;
use crate::address::NetAddr;
use crate::codec::{spec_decode_client, spec_server_packet_bytes};
use crate::connection::{
    ClientInfo, ConnectionManager, Outbound, spec_addresses, spec_heard, spec_kept, spec_next_sequence,
};
use crate::ball::spec_served;
use crate::error::{GameError, GameErrorView};
use crate::handler::{PacketHandler, spec_handled, spec_only_refreshed, spec_reply};
use crate::matchmaking::{MatchmakingSystem, QueuedPlayer, spec_fresh_match, spec_pairing};
use crate::model::{GameState, PacketView, PlayerId, ServerMessage, ServerMessageView};
use crate::registry::{spec_lined_up, spec_swept};
use crate::state::{State, spec_updated};

verus! {

/// The recommended time between two ticks, in milliseconds.
pub const TICK_RATE_MS: u64 = 16;

/// The recommended time between two state broadcasts, in milliseconds.
pub const BROADCAST_INTERVAL_MS: u64 = 50;

/// Whether `o` is the envelope with this sequence number, timestamp and
/// payload, addressed to these endpoints.
pub open spec fn spec_outbound(
    o: Outbound,
    sequence: u32,
    timestamp: u64,
    payload: ServerMessageView,
    targets: Seq<NetAddr>,
) -> bool {
    &&& o.bytes@ == spec_server_packet_bytes(PacketView { sequence, timestamp, payload })
    &&& o.targets@ == targets
}

/// Whether `outs`, from index `from` on, announces a change of phase and
/// nothing else: if the phase has changed, one `GameStateChange` with the new
/// phase goes to every known client under the next sequence number.
pub open spec fn spec_announced(
    outs: Seq<Outbound>,
    from: int,
    before: GameState,
    after: GameState,
    sequence: u32,
    final_sequence: u32,
    now: u64,
    targets: Seq<NetAddr>,
) -> bool {
    if before == after {
        outs.len() == from && final_sequence == sequence
    } else {
        &&& outs.len() == from + 1
        &&& final_sequence == spec_next_sequence(sequence)
        &&& spec_outbound(
            outs[from],
            final_sequence,
            now,
            ServerMessageView::GameStateChange(after),
            targets,
        )
    }
}

/// One match with its clients, and the queue of those who wait for the next.
pub struct GameServer {
    pub packet_handler: PacketHandler,
    pub connection_manager: ConnectionManager,
    pub matchmaking: MatchmakingSystem,
}

impl GameServer {
    /// The match and the client table are valid.
    pub open spec fn wf(&self) -> bool {
        &&& self.packet_handler.game_state.wf()
        &&& self.connection_manager.wf()
    }

    /// A server with an empty match, no known client and an empty queue.
    pub fn new(game_state: State, max_wait_time: u64) -> (r: Self)
        requires
            game_state.wf(),
        ensures
            r.wf(),
            r.packet_handler.game_state == game_state,
            r.connection_manager.spec_clients() == Seq::<ClientInfo>::empty(),
            r.connection_manager.spec_sequence() == 0,
            r.matchmaking.queue@.players == Seq::<QueuedPlayer>::empty(),
            r.matchmaking.queue@.max_wait_time == max_wait_time,
    {
        GameServer {
            packet_handler: PacketHandler::new(game_state),
            connection_manager: ConnectionManager::new(),
            matchmaking: MatchmakingSystem::new(max_wait_time),
        }
    }

    /// Adds the announcement of a change of phase to `outs`.
    fn announce(&mut self, before: GameState, now: u64, outs: &mut Vec<Outbound>)
        ensures
            final(self).packet_handler == old(self).packet_handler,
            final(self).matchmaking == old(self).matchmaking,
            final(self).connection_manager.spec_clients() == old(
                self,
            ).connection_manager.spec_clients(),
            final(outs)@.len() >= old(outs)@.len(),
            forall|i: int| 0 <= i < old(outs)@.len() ==> final(outs)@[i] == old(outs)@[i],
            spec_announced(
                final(outs)@,
                old(outs)@.len() as int,
                before,
                old(self).packet_handler.game_state.spec_state(),
                old(self).connection_manager.spec_sequence(),
                final(self).connection_manager.spec_sequence(),
                now,
                spec_addresses(old(self).connection_manager.spec_clients()),
            ),
    {
        let after = self.packet_handler.game_state.get_state();
        if before != after {
            let message = ServerMessage::GameStateChange(after);
            let out = self.connection_manager.broadcast(&message, now);
            outs.push(out);
        }
    }

    /// Handles a datagram that arrived from `addr` at `now`, and returns
    /// what is to be sent.
    ///
    /// The sender is noted as heard from, in the client table and in the
    /// seats it holds, whatever the datagram holds. A datagram that does not
    /// decode is discarded: nothing is sent and nothing else changes.
    /// Otherwise the message is dispatched; its answer goes to the sender
    /// under the next sequence number, and a change of phase is announced to
    /// every known client under the one after.
    pub fn on_datagram(&mut self, datagram: &[u8], addr: NetAddr, now: u64) -> (outs: Vec<Outbound>)
        requires
            old(self).wf(),
        ensures
            final(self).wf(),
            final(self).matchmaking == old(self).matchmaking,
            final(self).connection_manager.spec_clients() == spec_heard(
                old(self).connection_manager.spec_clients(),
                addr,
                now,
            ),
            match spec_decode_client(datagram@) {
                Err(_) => {
                    &&& outs@.len() == 0
                    &&& spec_only_refreshed(
                        old(self).packet_handler.game_state,
                        final(self).packet_handler.game_state,
                        addr,
                        now,
                    )
                    &&& final(self).connection_manager.spec_sequence() == old(
                        self,
                    ).connection_manager.spec_sequence()
                },
                Ok(p) => {
                    &&& spec_handled(
                        old(self).packet_handler.game_state,
                        final(self).packet_handler.game_state,
                        p.payload,
                        addr,
                        now,
                    )
                    &&& outs@.len() >= 1
                    &&& spec_outbound(
                        outs@[0],
                        spec_next_sequence(old(self).connection_manager.spec_sequence()),
                        now,
                        spec_reply(old(self).packet_handler.game_state.spec_players(), p.payload),
                        seq![addr],
                    )
                    &&& spec_announced(
                        outs@,
                        1,
                        old(self).packet_handler.game_state.spec_state(),
                        final(self).packet_handler.game_state.spec_state(),
                        spec_next_sequence(old(self).connection_manager.spec_sequence()),
                        final(self).connection_manager.spec_sequence(),
                        now,
                        spec_addresses(final(self).connection_manager.spec_clients()),
                    )
                },
            },
    {
        let mut outs: Vec<Outbound> = Vec::new();
        match self.connection_manager.receive(datagram, addr, now) {
            Ok((packet, from)) => {
                let before = self.packet_handler.game_state.get_state();
                match self.packet_handler.handle_packet(packet, from, now) {
                    Some(reply) => {
                        proof {
                            reply.lemma_view_parts();
                        }
                        let out = self.connection_manager.send_to(reply.get_payload(), from, now);
                        outs.push(out);
                        self.announce(before, now, &mut outs);
                    },
                    None => {},
                }
            },
            Err(_) => {
                self.packet_handler.game_state.update_last_seen(addr, now);
            },
        }
        outs
    }

    /// Sets the waiting match going (see [`State::start_game`]) and
    /// announces the start to every known client. Fails, and sends nothing,
    /// unless the match waits with both seats occupied.
    pub fn start_game(&mut self, now: u64) -> (r: Result<Vec<Outbound>, GameError>)
        requires
            old(self).wf(),
        ensures
            final(self).wf(),
            final(self).matchmaking == old(self).matchmaking,
            final(self).connection_manager.spec_clients() == old(
                self,
            ).connection_manager.spec_clients(),
            r is Ok <==> old(self).packet_handler.game_state.spec_state()
                == GameState::WaitingForPlayers && old(
                self,
            ).packet_handler.game_state.spec_players().spec_count() == 2,
            r is Ok ==> {
                &&& final(self).packet_handler.game_state.spec_state() == GameState::GameStarted
                &&& final(self).packet_handler.game_state.spec_scores() == old(
                    self,
                ).packet_handler.game_state.spec_scores()
                &&& final(self).packet_handler.game_state.spec_last_update() == old(
                    self,
                ).packet_handler.game_state.spec_last_update()
                &&& final(self).packet_handler.game_state.spec_duration() == 0
                &&& spec_served(final(self).packet_handler.game_state.spec_ball()@)
                &&& forall|id: PlayerId| #[trigger]
                    final(self).packet_handler.game_state.spec_players().spec_seat(id)
                        == spec_lined_up(
                        old(self).packet_handler.game_state.spec_players().spec_seat(id),
                        id,
                    )
                &&& r->Ok_0@.len() == 1
                &&& final(self).connection_manager.spec_sequence() == spec_next_sequence(
                    old(self).connection_manager.spec_sequence(),
                )
                &&& spec_outbound(
                    r->Ok_0@[0],
                    final(self).connection_manager.spec_sequence(),
                    now,
                    ServerMessageView::GameStateChange(GameState::GameStarted),
                    spec_addresses(old(self).connection_manager.spec_clients()),
                )
            },
            r is Err ==> {
                &&& final(self).packet_handler == old(self).packet_handler
                &&& final(self).connection_manager.spec_sequence() == old(
                    self,
                ).connection_manager.spec_sequence()
                &&& r->Err_0@ == GameErrorView::Io(
                    if old(self).packet_handler.game_state.spec_state()
                        == GameState::WaitingForPlayers {
                        "Not enough players to start a match"@
                    } else {
                        "Game already started"@
                    },
                )
            },
    {
        let before = self.packet_handler.game_state.get_state();
        match self.packet_handler.game_state.start_game() {
            Ok(()) => {
                let mut outs: Vec<Outbound> = Vec::new();
                self.announce(before, now, &mut outs);
                Ok(outs)
            },
            Err(e) => Err(e),
        }
    }

    /// Removes the players and forgets the clients that have been silent for
    /// longer than `timeout` milliseconds at `now`; a match that is left
    /// with fewer than two players goes back to waiting, which is announced
    /// to the clients that remain.
    pub fn sweep(&mut self, now: u64, timeout: u64) -> (outs: Vec<Outbound>)
        requires
            old(self).wf(),
        ensures
            final(self).wf(),
            final(self).matchmaking == old(self).matchmaking,
            final(self).packet_handler.game_state.spec_consistent(),
            final(self).packet_handler.game_state.spec_ball() == old(
                self,
            ).packet_handler.game_state.spec_ball(),
            final(self).packet_handler.game_state.spec_scores() == old(
                self,
            ).packet_handler.game_state.spec_scores(),
            forall|id: PlayerId| #[trigger]
                final(self).packet_handler.game_state.spec_players().spec_seat(id) == spec_swept(
                    old(self).packet_handler.game_state.spec_players().spec_seat(id),
                    now,
                    timeout,
                ),
            final(self).packet_handler.game_state.spec_state() == if old(
                self,
            ).packet_handler.game_state.spec_state() == GameState::GameStarted && final(self).packet_handler.game_state.spec_players().spec_count() < 2 {
                GameState::WaitingForPlayers
            } else {
                old(self).packet_handler.game_state.spec_state()
            },
            final(self).connection_manager.spec_clients() == spec_kept(
                old(self).connection_manager.spec_clients(),
                now,
                timeout,
            ),
            spec_announced(
                outs@,
                0,
                old(self).packet_handler.game_state.spec_state(),
                final(self).packet_handler.game_state.spec_state(),
                old(self).connection_manager.spec_sequence(),
                final(self).connection_manager.spec_sequence(),
                now,
                spec_addresses(final(self).connection_manager.spec_clients()),
            ),
    {
        let mut outs: Vec<Outbound> = Vec::new();
        let before = self.packet_handler.game_state.get_state();
        let _ = self.packet_handler.game_state.remove_inactive_players(now, timeout);
        self.connection_manager.remove_inactive_clients(now, timeout);
        self.announce(before, now, &mut outs);
        outs
    }

    /// Advances the match to `now` (see [`State::update`]) and announces a
    /// change of phase to every known client.
    pub fn tick(&mut self, now: u64) -> (outs: Vec<Outbound>)
        requires
            old(self).wf(),
        ensures
            final(self).wf(),
            final(self).matchmaking == old(self).matchmaking,
            final(self).connection_manager.spec_clients() == old(
                self,
            ).connection_manager.spec_clients(),
            final(self).packet_handler.game_state.spec_consistent(),
            final(self).packet_handler.game_state.spec_last_update() == now,
            spec_updated(
                old(self).packet_handler.game_state,
                final(self).packet_handler.game_state,
                now,
            ),
            spec_announced(
                outs@,
                0,
                old(self).packet_handler.game_state.spec_state(),
                final(self).packet_handler.game_state.spec_state(),
                old(self).connection_manager.spec_sequence(),
                final(self).connection_manager.spec_sequence(),
                now,
                spec_addresses(final(self).connection_manager.spec_clients()),
            ),
    {
        let mut outs: Vec<Outbound> = Vec::new();
        let before = self.packet_handler.game_state.get_state();
        let _ = self.packet_handler.game_state.update(now);
        self.announce(before, now, &mut outs);
        outs
    }

    /// Takes one snapshot of the match for the periodic broadcast: while
    /// both seats are occupied, the positions and the tally go to every known
    /// client as two envelopes, under the next two sequence numbers; while a
    /// seat is empty, nothing is sent.
    pub fn snapshot(&mut self, now: u64) -> (outs: Vec<Outbound>)
        requires
            old(self).wf(),
        ensures
            final(self).wf(),
            final(self).packet_handler == old(self).packet_handler,
            final(self).matchmaking == old(self).matchmaking,
            final(self).connection_manager.spec_clients() == old(
                self,
            ).connection_manager.spec_clients(),
            if old(self).packet_handler.game_state.spec_players().spec_count() == 2 {
                &&& outs@.len() == 2
                &&& final(self).connection_manager.spec_sequence() == spec_next_sequence(
                    spec_next_sequence(old(self).connection_manager.spec_sequence()),
                )
                &&& spec_outbound(
                    outs@[0],
                    spec_next_sequence(old(self).connection_manager.spec_sequence()),
                    now,
                    ServerMessageView::PositionUpdate(
                        old(self).packet_handler.game_state.spec_position_packet(),
                    ),
                    spec_addresses(old(self).connection_manager.spec_clients()),
                )
                &&& spec_outbound(
                    outs@[1],
                    final(self).connection_manager.spec_sequence(),
                    now,
                    ServerMessageView::ScoreUpdate(
                        old(self).packet_handler.game_state.spec_score_packet(),
                    ),
                    spec_addresses(old(self).connection_manager.spec_clients()),
                )
            } else {
                &&& outs@.len() == 0
                &&& final(self).connection_manager.spec_sequence() == old(
                    self,
                ).connection_manager.spec_sequence()
            },
    {
        let mut outs: Vec<Outbound> = Vec::new();
        match self.packet_handler.game_state.get_positions() {
            Ok(positions) => {
                let scores = *self.packet_handler.game_state.get_scores();
                let first = ServerMessage::PositionUpdate(positions);
                let out = self.connection_manager.broadcast(&first, now);
                outs.push(out);
                let second = ServerMessage::ScoreUpdate(scores);
                let out = self.connection_manager.broadcast(&second, now);
                outs.push(out);
            },
            Err(_) => {},
        }
        outs
    }

    /// Pairs the players that wait in the queue at `now`, and returns a new
    /// match for each pair; see [`MatchmakingSystem::update`].
    pub fn pair(&mut self, now: u64) -> (matches: Vec<State>)
        ensures
            final(self).packet_handler == old(self).packet_handler,
            final(self).connection_manager == old(self).connection_manager,
            final(self).matchmaking.queue@.max_wait_time == old(self).matchmaking.queue@.max_wait_time,
            final(self).matchmaking.queue@.players == spec_pairing(
                old(self).matchmaking.queue@.players,
                now,
                old(self).matchmaking.queue@.max_wait_time,
            ).1,
            matches@.len() == spec_pairing(
                old(self).matchmaking.queue@.players,
                now,
                old(self).matchmaking.queue@.max_wait_time,
            ).0.len(),
            forall|k: int|
                0 <= k < matches@.len() ==> spec_fresh_match(
                    #[trigger] matches@[k],
                    spec_pairing(
                        old(self).matchmaking.queue@.players,
                        now,
                        old(self).matchmaking.queue@.max_wait_time,
                    ).0[k].0.player.spec_addr(),
                    spec_pairing(
                        old(self).matchmaking.queue@.players,
                        now,
                        old(self).matchmaking.queue@.max_wait_time,
                    ).0[k].1.player.spec_addr(),
                    now,
                ),
    {
        self.matchmaking.queue.create_matches(now)
    }
}

} // verus!
