//! The player registry of a match: who sits in which seat, where their
//! datagrams come from, and when each was last heard from.

use vstd::prelude::*;
use crate::address::NetAddr;
use crate::error::{ServerError, ServerErrorView};
use crate::model::{Movement, PlayerId};
use crate::player::{Player, spec_start_position, start_position};

verus! {

/// An occupied seat: the player and the time, in milliseconds, of the last
/// datagram from its endpoint.
#[derive(Clone, Copy, Debug)]
pub struct PlayerConnection {
    pub player: Player,
    pub last_seen: u64,
}

/// The time that has passed between `since` and `now`; none if the clock
/// went backwards.
pub open spec fn spec_elapsed(now: u64, since: u64) -> u64 {
    if now >= since {
        (now - since) as u64
    } else {
        0
    }
}

/// The time that has passed between `since` and `now`.
pub fn elapsed(now: u64, since: u64) -> (r: u64)
    ensures
        r == spec_elapsed(now, since),
{
    if now >= since {
        now - since
    } else {
        0
    }
}

/// A seat as it is after a datagram from `addr` arrived at `now`.
pub open spec fn spec_refreshed(seat: Option<PlayerConnection>, addr: NetAddr, now: u64) -> Option<
    PlayerConnection,
> {
    match seat {
        Some(c) => if c.player.spec_addr() == addr {
            Some(PlayerConnection { player: c.player, last_seen: now })
        } else {
            seat
        },
        None => None,
    }
}

/// A seat as it is after the sweep at `now`: empty if its player has been
/// silent for longer than `timeout`.
pub open spec fn spec_swept(seat: Option<PlayerConnection>, now: u64, timeout: u64) -> Option<
    PlayerConnection,
> {
    match seat {
        Some(c) => if spec_elapsed(now, c.last_seen) > timeout {
            None
        } else {
            seat
        },
        None => None,
    }
}

/// A seat as it is after a tick of `dt_ms` milliseconds.
pub open spec fn spec_ticked(seat: Option<PlayerConnection>, dt_ms: u32) -> Option<
    PlayerConnection,
> {
    match seat {
        Some(c) => Some(PlayerConnection { player: c.player.spec_ticked(dt_ms), last_seen: c.last_seen }),
        None => None,
    }
}

/// A seat as it is when a match starts: its paddle at the starting position.
pub open spec fn spec_lined_up(seat: Option<PlayerConnection>, id: PlayerId) -> Option<
    PlayerConnection,
> {
    match seat {
        Some(c) => Some(
            PlayerConnection {
                player: c.player.spec_moved_to(spec_start_position(id)),
                last_seen: c.last_seen,
            },
        ),
        None => None,
    }
}

/// The two seats of a match.
#[derive(Clone, Copy, Debug)]
pub struct PlayerManager {
    player1: Option<PlayerConnection>,
    player2: Option<PlayerConnection>,
}

impl PlayerManager {
    /// Who sits in a seat, if anyone.
    pub closed spec fn spec_seat(&self, id: PlayerId) -> Option<PlayerConnection> {
        match id {
            PlayerId::Player1 => self.player1,
            PlayerId::Player2 => self.player2,
        }
    }

    /// The number of occupied seats.
    pub open spec fn spec_count(&self) -> int {
        (if self.spec_seat(PlayerId::Player1) is Some {
            1int
        } else {
            0int
        }) + (if self.spec_seat(PlayerId::Player2) is Some {
            1int
        } else {
            0int
        })
    }

    /// Whoever sits in seat `id` is a valid player and carries the number of
    /// the seat.
    pub open spec fn spec_seat_valid(&self, id: PlayerId) -> bool {
        self.spec_seat(id) is Some ==> {
            &&& self.spec_seat(id).unwrap().player.wf()
            &&& self.spec_seat(id).unwrap().player.spec_id() == id
        }
    }

    /// Every seated player is valid and carries the number of its seat.
    pub open spec fn wf(&self) -> bool {
        &&& self.spec_seat_valid(PlayerId::Player1)
        &&& self.spec_seat_valid(PlayerId::Player2)
    }

    /// The seated players in seat order.
    pub open spec fn spec_players(&self) -> Seq<Player> {
        let first = match self.spec_seat(PlayerId::Player1) {
            Some(c) => seq![c.player],
            None => Seq::<Player>::empty(),
        };
        match self.spec_seat(PlayerId::Player2) {
            Some(c) => first.push(c.player),
            None => first,
        }
    }

    /// The seats and positions of the seated players in seat order.
    pub open spec fn spec_positions(&self) -> Seq<(PlayerId, (i64, i64))> {
        let first = match self.spec_seat(PlayerId::Player1) {
            Some(c) => seq![(PlayerId::Player1, c.player.spec_position())],
            None => Seq::<(PlayerId, (i64, i64))>::empty(),
        };
        match self.spec_seat(PlayerId::Player2) {
            Some(c) => first.push((PlayerId::Player2, c.player.spec_position())),
            None => first,
        }
    }

    /// Two registries with the same seats are the same registry.
    pub proof fn lemma_seats_determine(a: PlayerManager, b: PlayerManager)
        requires
            a.spec_seat(PlayerId::Player1) == b.spec_seat(PlayerId::Player1),
            a.spec_seat(PlayerId::Player2) == b.spec_seat(PlayerId::Player2),
        ensures
            a == b,
    {
    }

    /// A registry with both seats empty.
    pub fn new() -> (r: Self)
        ensures
            r.wf(),
            r.spec_seat(PlayerId::Player1) is None,
            r.spec_seat(PlayerId::Player2) is None,
    {
        PlayerManager { player1: None, player2: None }
    }

    fn seat(&self, id: PlayerId) -> (r: Option<PlayerConnection>)
        ensures
            r == self.spec_seat(id),
    {
        match id {
            PlayerId::Player1 => self.player1,
            PlayerId::Player2 => self.player2,
        }
    }

    fn set_seat(&mut self, id: PlayerId, seat: Option<PlayerConnection>)
        ensures
            final(self).spec_seat(id) == seat,
            final(self).spec_seat(id.spec_opponent()) == old(self).spec_seat(id.spec_opponent()),
    {
        match id {
            PlayerId::Player1 => {
                self.player1 = seat;
            },
            PlayerId::Player2 => {
                self.player2 = seat;
            },
        }
    }

    /// Seats a new player, heard from at `now`, in seat `id`.
    ///
    /// Fails with `GameFull` when both seats are occupied and with
    /// `SeatTaken` when only seat `id` is; the registry is then unchanged.
    pub fn add_player(&mut self, id: PlayerId, addr: NetAddr, now: u64) -> (r: Result<
        (),
        ServerError,
    >)
        requires
            old(self).wf(),
        ensures
            final(self).wf(),
            r is Ok <==> old(self).spec_seat(id) is None,
            r is Ok ==> final(self).spec_seat(id) == Some(
                PlayerConnection { player: Player::spec_new(id, addr), last_seen: now },
            ) && final(self).spec_seat(id.spec_opponent()) == old(self).spec_seat(
                id.spec_opponent(),
            ),
            r is Err ==> *final(self) == *old(self),
            r is Err ==> (r->Err_0@ == if old(self).spec_count() == 2 {
                ServerErrorView::GameFull
            } else {
                ServerErrorView::SeatTaken
            }),
    {
        if self.player1.is_some() && self.player2.is_some() {
            return Err(ServerError::GameFull);
        }
        if self.seat(id).is_some() {
            return Err(ServerError::SeatTaken);
        }
        let player = Player::new(id, addr);
        self.set_seat(id, Some(PlayerConnection { player, last_seen: now }));
        Ok(())
    }

    /// Empties seat `id`. Fails with `PlayerNotFound` when nobody sits there.
    pub fn remove_player(&mut self, id: PlayerId) -> (r: Result<(), ServerError>)
        requires
            old(self).wf(),
        ensures
            final(self).wf(),
            r is Ok <==> old(self).spec_seat(id) is Some,
            r is Err ==> r->Err_0@ == ServerErrorView::PlayerNotFound,
            final(self).spec_seat(id) is None,
            final(self).spec_seat(id.spec_opponent()) == old(self).spec_seat(id.spec_opponent()),
    {
        if self.seat(id).is_none() {
            proof {
                Self::lemma_seats_determine(*self, *old(self));
            }
            return Err(ServerError::PlayerNotFound);
        }
        self.set_seat(id, None);
        Ok(())
    }

    /// Advances the paddle in seat `id` by `dt_ms` milliseconds. An empty
    /// seat is left empty; the call succeeds either way.
    pub fn update_player_position(&mut self, id: PlayerId, dt_ms: u32) -> (r: Result<
        (),
        ServerError,
    >)
        requires
            old(self).wf(),
        ensures
            final(self).wf(),
            r is Ok,
            final(self).spec_seat(id) == spec_ticked(old(self).spec_seat(id), dt_ms),
            final(self).spec_seat(id.spec_opponent()) == old(self).spec_seat(id.spec_opponent()),
    {
        match self.seat(id) {
            Some(c) => {
                let mut player = c.player;
                player.update_position(dt_ms);
                self.set_seat(id, Some(PlayerConnection { player, last_seen: c.last_seen }));
            },
            None => {},
        }
        Ok(())
    }

    /// Applies a movement command to the paddle in seat `id`, and says
    /// whether anyone sits there.
    pub fn move_player(&mut self, id: PlayerId, movement: Movement) -> (found: bool)
        requires
            old(self).wf(),
        ensures
            final(self).wf(),
            found == old(self).spec_seat(id) is Some,
            found ==> final(self).spec_seat(id) == Some(
                PlayerConnection {
                    player: old(self).spec_seat(id).unwrap().player.spec_commanded(movement),
                    last_seen: old(self).spec_seat(id).unwrap().last_seen,
                },
            ),
            !found ==> final(self).spec_seat(id) is None,
            final(self).spec_seat(id.spec_opponent()) == old(self).spec_seat(id.spec_opponent()),
    {
        match self.seat(id) {
            Some(c) => {
                let mut player = c.player;
                player.apply_movement(movement);
                self.set_seat(id, Some(PlayerConnection { player, last_seen: c.last_seen }));
                true
            },
            None => false,
        }
    }

    /// Puts every seated player's paddle at its starting position.
    pub fn reset_positions(&mut self)
        requires
            old(self).wf(),
        ensures
            final(self).wf(),
            forall|id: PlayerId| #[trigger]
                final(self).spec_seat(id) == spec_lined_up(old(self).spec_seat(id), id),
    {
        let ghost before = *self;
        match self.player1 {
            Some(c) => {
                let mut player = c.player;
                let start = start_position(PlayerId::Player1);
                player.set_position(start.0, start.1);
                self.player1 = Some(PlayerConnection { player, last_seen: c.last_seen });
            },
            None => {},
        }
        match self.player2 {
            Some(c) => {
                let mut player = c.player;
                let start = start_position(PlayerId::Player2);
                player.set_position(start.0, start.1);
                self.player2 = Some(PlayerConnection { player, last_seen: c.last_seen });
            },
            None => {},
        }
        proof {
            let after = *self;
            assert forall|id: PlayerId| #[trigger]
                after.spec_seat(id) == spec_lined_up(before.spec_seat(id), id) by {
                match before.spec_seat(id) {
                    Some(c) => {
                        c.player.lemma_derived(spec_start_position(id), 0);
                    },
                    None => {},
                }
            }
        }
    }

    /// The seats and positions of the seated players, player 1 before
    /// player 2 whatever the order in which they joined.
    pub fn get_positions(&self) -> (r: Vec<(PlayerId, (i64, i64))>)
        ensures
            r@ == self.spec_positions(),
    {
        let mut out: Vec<(PlayerId, (i64, i64))> = Vec::new();
        match self.player1 {
            Some(c) => {
                out.push((PlayerId::Player1, c.player.get_position()));
            },
            None => {},
        }
        match self.player2 {
            Some(c) => {
                out.push((PlayerId::Player2, c.player.get_position()));
            },
            None => {},
        }
        assert(out@ =~= self.spec_positions());
        out
    }

    /// The seated players, player 1 before player 2.
    pub fn get_players(&self) -> (r: Vec<Player>)
        ensures
            r@ == self.spec_players(),
    {
        let mut out: Vec<Player> = Vec::new();
        match self.player1 {
            Some(c) => {
                out.push(c.player);
            },
            None => {},
        }
        match self.player2 {
            Some(c) => {
                out.push(c.player);
            },
            None => {},
        }
        assert(out@ =~= self.spec_players());
        out
    }

    /// The player in seat `id`, if anyone sits there.
    pub fn get_player(&self, id: PlayerId) -> (r: Option<Player>)
        ensures
            r == match self.spec_seat(id) {
                Some(c) => Some(c.player),
                None => None,
            },
    {
        match self.seat(id) {
            Some(c) => Some(c.player),
            None => None,
        }
    }

    /// The endpoint to which datagrams for seat `id` are sent. Fails with
    /// `PlayerNotFound` when nobody sits there.
    pub fn player_address(&self, id: PlayerId) -> (r: Result<NetAddr, ServerError>)
        ensures
            match r {
                Ok(addr) => self.spec_seat(id) is Some && addr == self.spec_seat(
                    id,
                ).unwrap().player.spec_addr(),
                Err(e) => self.spec_seat(id) is None && e@ == ServerErrorView::PlayerNotFound,
            },
    {
        match self.seat(id) {
            Some(c) => Ok(c.player.get_addr()),
            None => Err(ServerError::PlayerNotFound),
        }
    }

    /// The number of occupied seats.
    pub fn get_player_count(&self) -> (r: usize)
        ensures
            r == self.spec_count(),
    {
        let a: usize = if self.player1.is_some() {
            1
        } else {
            0
        };
        let b: usize = if self.player2.is_some() {
            1
        } else {
            0
        };
        a + b
    }

    /// Notes that a datagram from `addr` arrived at `now`: every seat whose
    /// player has that endpoint is marked as heard from at `now`.
    pub fn update_last_seen(&mut self, addr: NetAddr, now: u64)
        requires
            old(self).wf(),
        ensures
            final(self).wf(),
            forall|id: PlayerId| #[trigger]
                final(self).spec_seat(id) == spec_refreshed(old(self).spec_seat(id), addr, now),
    {
        match self.player1 {
            Some(c) => {
                if c.player.get_addr() == addr {
                    self.player1 = Some(PlayerConnection { player: c.player, last_seen: now });
                }
            },
            None => {},
        }
        match self.player2 {
            Some(c) => {
                if c.player.get_addr() == addr {
                    self.player2 = Some(PlayerConnection { player: c.player, last_seen: now });
                }
            },
            None => {},
        }
    }

    /// Empties every seat whose player has been silent for longer than
    /// `timeout` milliseconds at `now`, and says how many seats it emptied.
    pub fn remove_inactive_players(&mut self, now: u64, timeout: u64) -> (removed: usize)
        requires
            old(self).wf(),
        ensures
            final(self).wf(),
            forall|id: PlayerId| #[trigger]
                final(self).spec_seat(id) == spec_swept(old(self).spec_seat(id), now, timeout),
            removed == old(self).spec_count() - final(self).spec_count(),
    {
        let mut removed: usize = 0;
        match self.player1 {
            Some(c) => {
                if elapsed(now, c.last_seen) > timeout {
                    self.player1 = None;
                    removed = removed + 1;
                }
            },
            None => {},
        }
        match self.player2 {
            Some(c) => {
                if elapsed(now, c.last_seen) > timeout {
                    self.player2 = None;
                    removed = removed + 1;
                }
            },
            None => {},
        }
        removed
    }
}

} // verus!
