//! The matchmaking queue: players that wait for a match, and the rule that
//! pairs them.
//!
//! Players are paired in order of arrival, two at a time. A player who has
//! waited longer than the queue's limit goes first, ahead of those in front
//! of it. A player left without a partner stays at the head of the queue.

use vstd::prelude::*;
use std::collections::VecDeque;
use crate::address::NetAddr;
use crate::ball::spec_served;
use crate::error::GameError;
use crate::model::{GameState, PlayerId};
use crate::player::Player;
use crate::registry::{PlayerConnection, PlayerManager, elapsed, spec_elapsed};
use crate::state::State;

verus! {

/// A player in the queue and the time, in milliseconds, at which it joined.
#[derive(Clone, Copy, Debug)]
pub struct QueuedPlayer {
    pub player: Player,
    pub join_time: u64,
}

/// Whether a queued player has waited longer than `max_wait` at `now`.
pub open spec fn spec_overdue(q: QueuedPlayer, now: u64, max_wait: u64) -> bool {
    spec_elapsed(now, q.join_time) > max_wait
}

/// The index of the first overdue player from index `from` on.
pub open spec fn spec_first_overdue(queue: Seq<QueuedPlayer>, now: u64, max_wait: u64, from: int)
    -> Option<int>
    decreases queue.len() - from,
{
    if from < 0 || from >= queue.len() {
        None
    } else if spec_overdue(queue[from], now, max_wait) {
        Some(from)
    } else {
        spec_first_overdue(queue, now, max_wait, from + 1)
    }
}

/// The index of the player who is paired next: the first overdue player, or
/// the head of the queue if nobody is overdue.
pub open spec fn spec_lead(queue: Seq<QueuedPlayer>, now: u64, max_wait: u64) -> int {
    match spec_first_overdue(queue, now, max_wait, 0) {
        Some(i) => i,
        None => 0,
    }
}

/// The pairs that a queue gives at `now`, in the order in which they are
/// made, and the players that stay behind. While at least two players wait,
/// the player who is paired next leaves the queue together with the head of
/// what remains.
pub open spec fn spec_pairing(queue: Seq<QueuedPlayer>, now: u64, max_wait: u64) -> (
    Seq<(QueuedPlayer, QueuedPlayer)>,
    Seq<QueuedPlayer>,
)
    decreases queue.len(),
{
    if queue.len() < 2 {
        (Seq::empty(), queue)
    } else {
        let i = spec_lead(queue, now, max_wait);
        if 0 <= i < queue.len() {
            let rest = queue.remove(i);
            let later = spec_pairing(rest.subrange(1, rest.len() as int), now, max_wait);
            (seq![(queue[i], rest[0])] + later.0, later.1)
        } else {
            (Seq::empty(), queue)
        }
    }
}

/// The index of the first queued player with seat number `id`, from index
/// `from` on.
pub open spec fn spec_position_of(queue: Seq<QueuedPlayer>, id: PlayerId, from: int) -> Option<int>
    decreases queue.len() - from,
{
    if from < 0 || from >= queue.len() {
        None
    } else if queue[from].player.spec_id() == id {
        Some(from)
    } else {
        spec_position_of(queue, id, from + 1)
    }
}

/// Whether `m` is a match newly made for two endpoints at `now`: the first
/// sits in seat 1, the second in seat 2, both at rest and heard from at
/// `now`; no points, a served ball, waiting to start.
pub open spec fn spec_fresh_match(m: State, first: NetAddr, second: NetAddr, now: u64) -> bool {
    &&& m.wf()
    &&& m.spec_players().spec_seat(PlayerId::Player1) == Some(
        PlayerConnection { player: Player::spec_new(PlayerId::Player1, first), last_seen: now },
    )
    &&& m.spec_players().spec_seat(PlayerId::Player2) == Some(
        PlayerConnection { player: Player::spec_new(PlayerId::Player2, second), last_seen: now },
    )
    &&& m.spec_state() == GameState::WaitingForPlayers
    &&& m.spec_scores() == (0u8, 0u8)
    &&& m.spec_last_update() == now
    &&& m.spec_duration() == 0
    &&& spec_served(m.spec_ball()@)
}

/// The first overdue player, if there is one, is in the queue and overdue,
/// and nobody before it is.
pub proof fn lemma_first_overdue(queue: Seq<QueuedPlayer>, now: u64, max_wait: u64, from: int)
    requires
        0 <= from,
    ensures
        match spec_first_overdue(queue, now, max_wait, from) {
            Some(i) => from <= i < queue.len() && spec_overdue(queue[i], now, max_wait) && forall|
                j: int,
            |
                from <= j < i ==> !spec_overdue(#[trigger] queue[j], now, max_wait),
            None => forall|j: int|
                from <= j < queue.len() ==> !spec_overdue(#[trigger] queue[j], now, max_wait),
        },
    decreases queue.len() - from,
{
    if from < queue.len() && !spec_overdue(queue[from], now, max_wait) {
        lemma_first_overdue(queue, now, max_wait, from + 1);
    }
}

/// In a queue whose players joined in the order in which they stand, the
/// player who is paired next is the head: pairing is first come, first
/// served.
pub proof fn lemma_lead_is_head_when_ordered(queue: Seq<QueuedPlayer>, now: u64, max_wait: u64)
    requires
        forall|i: int, j: int|
            0 <= i <= j < queue.len() ==> (#[trigger] queue[i]).join_time <= (
            #[trigger] queue[j]).join_time,
    ensures
        spec_lead(queue, now, max_wait) == 0,
{
    lemma_first_overdue(queue, now, max_wait, 0);
    match spec_first_overdue(queue, now, max_wait, 0) {
        Some(i) => {
            if i > 0 {
                assert(queue[0].join_time <= queue[i].join_time);
                assert(spec_overdue(queue[0], now, max_wait));
            }
        },
        None => {},
    }
}

/// Where at least two players wait and one of them is overdue, the first
/// pair is led by an overdue player: nobody who has waited too long is kept
/// waiting by those in front.
pub proof fn lemma_overdue_goes_first(
    queue: Seq<QueuedPlayer>,
    now: u64,
    max_wait: u64,
    overdue: int,
)
    requires
        queue.len() >= 2,
        0 <= overdue < queue.len(),
        spec_overdue(queue[overdue], now, max_wait),
    ensures
        spec_pairing(queue, now, max_wait).0.len() >= 1,
        spec_overdue(spec_pairing(queue, now, max_wait).0[0].0, now, max_wait),
{
    lemma_first_overdue(queue, now, max_wait, 0);
}

/// Pairing takes players out of the queue two at a time and leaves at most
/// one behind.
pub proof fn lemma_pairing_counts(queue: Seq<QueuedPlayer>, now: u64, max_wait: u64)
    ensures
        2 * spec_pairing(queue, now, max_wait).0.len() + spec_pairing(queue, now, max_wait).1.len()
            == queue.len(),
        spec_pairing(queue, now, max_wait).1.len() <= 1,
    decreases queue.len(),
{
    if queue.len() >= 2 {
        lemma_first_overdue(queue, now, max_wait, 0);
        let i = spec_lead(queue, now, max_wait);
        let rest = queue.remove(i);
        lemma_pairing_counts(rest.subrange(1, rest.len() as int), now, max_wait);
    }
}

/// The queue of players that wait for a match.
#[derive(Debug)]
pub struct MatchmakingQueue {
    queue: VecDeque<QueuedPlayer>,
    max_wait_time: u64,
}

/// Mathematical value of a [`MatchmakingQueue`]: the players in queue order
/// and the longest a player waits, in milliseconds, before it goes first.
pub struct QueueView {
    pub players: Seq<QueuedPlayer>,
    pub max_wait_time: u64,
}

impl View for MatchmakingQueue {
    type V = QueueView;

    closed spec fn view(&self) -> QueueView {
        QueueView { players: self.queue@, max_wait_time: self.max_wait_time }
    }
}

impl MatchmakingQueue {
    /// An empty queue.
    pub fn new(max_wait_time: u64) -> (r: Self)
        ensures
            r@.players == Seq::<QueuedPlayer>::empty(),
            r@.max_wait_time == max_wait_time,
    {
        MatchmakingQueue { queue: VecDeque::new(), max_wait_time }
    }

    /// Puts a player at the end of the queue, as joined at `now`.
    pub fn add_player(&mut self, player: Player, now: u64)
        ensures
            final(self)@.players == old(self)@.players.push(QueuedPlayer { player, join_time: now }),
            final(self)@.max_wait_time == old(self)@.max_wait_time,
    {
        self.queue.push_back(QueuedPlayer { player, join_time: now });
    }

    /// Takes the first player with seat number `player_id` out of the queue.
    pub fn remove_player(&mut self, player_id: PlayerId) -> (r: Option<Player>)
        ensures
            final(self)@.max_wait_time == old(self)@.max_wait_time,
            match spec_position_of(old(self)@.players, player_id, 0) {
                Some(i) => r == Some(old(self)@.players[i].player) && final(self)@.players == old(self)@.players.remove(i),
                None => r is None && final(self)@.players == old(self)@.players,
            },
    {
        let mut i: usize = 0;
        while i < self.queue.len()
            invariant
                *self == *old(self),
                0 <= i <= self.queue@.len(),
                spec_position_of(self.queue@, player_id, i as int) == spec_position_of(
                    self.queue@,
                    player_id,
                    0,
                ),
            decreases self.queue@.len() - i,
        {
            if self.queue[i].player.get_id() == player_id {
                let taken = self.queue.remove(i);
                return match taken {
                    Some(q) => Some(q.player),
                    None => None,
                };
            }
            i = i + 1;
        }
        None
    }

    /// The index of the player who is paired next.
    fn lead_index(&self, now: u64) -> (i: usize)
        requires
            self@.players.len() >= 1,
        ensures
            i == spec_lead(self@.players, now, self@.max_wait_time),
            i < self@.players.len(),
    {
        let mut i: usize = 0;
        while i < self.queue.len()
            invariant
                0 <= i <= self.queue@.len(),
                spec_first_overdue(self.queue@, now, self.max_wait_time, i as int)
                    == spec_first_overdue(self.queue@, now, self.max_wait_time, 0),
            decreases self.queue@.len() - i,
        {
            if elapsed(now, self.queue[i].join_time) > self.max_wait_time {
                return i;
            }
            i = i + 1;
        }
        0
    }

    /// Pairs the waiting players at `now` and makes a match for each pair.
    ///
    /// The pairs are those of [`spec_pairing`]; the players that it leaves
    /// behind stay in the queue, in order. In each match the player who was
    /// paired first sits in seat 1 and its partner in seat 2.
    pub fn create_matches(&mut self, now: u64) -> (matches: Vec<State>)
        ensures
            final(self)@.max_wait_time == old(self)@.max_wait_time,
            final(self)@.players == spec_pairing(old(self)@.players, now, old(self)@.max_wait_time).1,
            matches@.len() == spec_pairing(old(self)@.players, now, old(self)@.max_wait_time).0.len(),
            forall|k: int|
                0 <= k < matches@.len() ==> spec_fresh_match(
                    #[trigger] matches@[k],
                    spec_pairing(old(self)@.players, now, old(self)@.max_wait_time).0[k].0.player.spec_addr(),
                    spec_pairing(old(self)@.players, now, old(self)@.max_wait_time).0[k].1.player.spec_addr(),
                    now,
                ),
    {
        let mut matches: Vec<State> = Vec::new();
        let ghost start = self.queue@;
        let ghost max_wait = self.max_wait_time;
        let ghost mut made: Seq<(QueuedPlayer, QueuedPlayer)> = Seq::empty();
        while self.queue.len() >= 2
            invariant
                self.max_wait_time == max_wait,
                made + spec_pairing(self.queue@, now, max_wait).0 =~= spec_pairing(
                    start,
                    now,
                    max_wait,
                ).0,
                spec_pairing(self.queue@, now, max_wait).1 == spec_pairing(start, now, max_wait).1,
                matches@.len() == made.len(),
                forall|k: int|
                    0 <= k < matches@.len() ==> spec_fresh_match(
                        #[trigger] matches@[k],
                        made[k].0.player.spec_addr(),
                        made[k].1.player.spec_addr(),
                        now,
                    ),
            decreases self.queue@.len(),
        {
            let ghost before = self.queue@;
            let i = self.lead_index(now);
            let lead = self.queue.remove(i);
            let partner = self.queue.pop_front();
            match (lead, partner) {
                (Some(first), Some(second)) => {
                    let mut players = PlayerManager::new();
                    let _ = players.add_player(PlayerId::Player1, first.player.get_addr(), now);
                    let _ = players.add_player(PlayerId::Player2, second.player.get_addr(), now);
                    let fresh = State::new(players, now);
                    matches.push(fresh);
                    proof {
                        let rest = before.remove(i as int);
                        assert(self.queue@ == rest.subrange(1, rest.len() as int));
                        made = made.push((first, second));
                        assert(seq![(first, second)] + spec_pairing(self.queue@, now, max_wait).0
                            =~= spec_pairing(before, now, max_wait).0);
                    }
                },
                _ => {
                    assert(false);
                },
            }
        }
        matches
    }

    /// The seat number and the waiting time at `now` of every queued
    /// player, in queue order.
    pub fn get_queue_status(&self, now: u64) -> (r: Vec<(PlayerId, u64)>)
        ensures
            r@.len() == self@.players.len(),
            forall|i: int|
                0 <= i < self@.players.len() ==> #[trigger] r@[i] == (
                    self@.players[i].player.spec_id(),
                    spec_elapsed(now, self@.players[i].join_time),
                ),
    {
        let mut out: Vec<(PlayerId, u64)> = Vec::new();
        let mut i: usize = 0;
        while i < self.queue.len()
            invariant
                0 <= i <= self.queue@.len(),
                out@.len() == i,
                forall|j: int|
                    0 <= j < i ==> #[trigger] out@[j] == (
                        self.queue@[j].player.spec_id(),
                        spec_elapsed(now, self.queue@[j].join_time),
                    ),
            decreases self.queue@.len() - i,
        {
            let q = self.queue[i];
            out.push((q.player.get_id(), elapsed(now, q.join_time)));
            i = i + 1;
        }
        out
    }
}

/// The matchmaking service: the queue and the call that empties it.
#[derive(Debug)]
pub struct MatchmakingSystem {
    pub queue: MatchmakingQueue,
}

impl MatchmakingSystem {
    pub fn new(max_wait_time: u64) -> (r: Self)
        ensures
            r.queue@.players == Seq::<QueuedPlayer>::empty(),
            r.queue@.max_wait_time == max_wait_time,
    {
        MatchmakingSystem { queue: MatchmakingQueue::new(max_wait_time) }
    }

    /// Pairs the waiting players at `now`; see
    /// [`MatchmakingQueue::create_matches`]. Never fails.
    pub fn update(&mut self, now: u64) -> (r: Result<Vec<State>, GameError>)
        ensures
            r is Ok,
            final(self).queue@.max_wait_time == old(self).queue@.max_wait_time,
            final(self).queue@.players == spec_pairing(
                old(self).queue@.players,
                now,
                old(self).queue@.max_wait_time,
            ).1,
            r->Ok_0@.len() == spec_pairing(
                old(self).queue@.players,
                now,
                old(self).queue@.max_wait_time,
            ).0.len(),
            forall|k: int|
                0 <= k < r->Ok_0@.len() ==> spec_fresh_match(
                    #[trigger] r->Ok_0@[k],
                    spec_pairing(
                        old(self).queue@.players,
                        now,
                        old(self).queue@.max_wait_time,
                    ).0[k].0.player.spec_addr(),
                    spec_pairing(
                        old(self).queue@.players,
                        now,
                        old(self).queue@.max_wait_time,
                    ).0[k].1.player.spec_addr(),
                    now,
                ),
    {
        Ok(self.queue.create_matches(now))
    }

    pub fn add_player(&mut self, player: Player, now: u64)
        ensures
            final(self).queue@.players == old(self).queue@.players.push(QueuedPlayer { player, join_time: now }),
            final(self).queue@.max_wait_time == old(self).queue@.max_wait_time,
    {
        self.queue.add_player(player, now);
    }

    pub fn remove_player(&mut self, player_id: PlayerId) -> (r: Option<Player>)
        ensures
            final(self).queue@.max_wait_time == old(self).queue@.max_wait_time,
            match spec_position_of(old(self).queue@.players, player_id, 0) {
                Some(i) => r == Some(old(self).queue@.players[i].player) && final(self).queue@.players == old(self).queue@.players.remove(i),
                None => r is None && final(self).queue@.players == old(self).queue@.players,
            },
    {
        self.queue.remove_player(player_id)
    }

    pub fn get_queue_status(&self, now: u64) -> (r: Vec<(PlayerId, u64)>)
        ensures
            r@.len() == self.queue@.players.len(),
            forall|i: int|
                0 <= i < self.queue@.players.len() ==> #[trigger] r@[i] == (
                    self.queue@.players[i].player.spec_id(),
                    spec_elapsed(now, self.queue@.players[i].join_time),
                ),
    {
        self.queue.get_queue_status(now)
    }
}

} // verus!
