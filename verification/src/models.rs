//! The data of a room: its fixed description, its changing state, players,
//! boards and the events called so far.
use std::collections::HashSet;
use vstd::prelude::*;
use crate::util::folded;

verus! {

/// Where a room is in its life: waiting for the first event, in play, or
/// finished once somebody has a bingo.
#[derive(Clone, Copy, Debug, PartialEq, Eq, Structural)]
pub enum Status {
    Waiting,
    Active,
    Finished,
}

/// The order in which a room moves through its statuses.
pub open spec fn status_rank(s: Status) -> int {
    match s {
        Status::Waiting => 0,
        Status::Active => 1,
        Status::Finished => 2,
    }
}

/// What stays fixed about a room once it is created.
#[derive(Clone)]
pub struct RoomMeta {
    pub code: String,
    pub host_name: String,
    pub host_token: String,
    pub team_id: u32,
    pub roster: Vec<RosterPlayer>,
    pub event_types: Vec<String>,
    pub created_at: u64,
}

/// What changes in a room as players join and events are called.
///
/// `players` holds each player once, keyed by `Player::id`: no two entries
/// share an id (see `RoomState::ids_distinct`), in the order they first joined.
pub struct RoomState {
    pub version: u64,
    pub status: Status,
    pub players: Vec<Player>,
    pub events: Vec<CalledEvent>,
    pub winners: Vec<Winner>,
}

/// A player of a room, with the board dealt to them and the cells marked on it.
pub struct Player {
    pub id: String,
    pub name: String,
    pub token: String,
    pub board: Board,
    pub marked_cells: HashSet<usize>,
    pub is_host: bool,
    pub connected_at: u64,
}

/// A bingo board: its cells in row-major order and the seed it was dealt from.
#[derive(Clone)]
pub struct Board {
    pub cells: Vec<Cell>,
    pub seed: u64,
}

/// One square of a board: a (player, event) pair, or the free centre square.
#[derive(Clone)]
pub struct Cell {
    pub player_name: String,
    pub event_type: String,
    pub is_free: bool,
}

/// An event called by the host, with its position in the room's event list.
#[derive(Clone)]
pub struct CalledEvent {
    pub index: usize,
    pub player_name: String,
    pub event_type: String,
    pub timestamp: u64,
    pub undone: bool,
}

/// A player of the team's roster.
#[derive(Clone)]
pub struct RosterPlayer {
    pub id: u32,
    pub name: String,
    pub position: String,
}

/// A player who completed a line, the line, and the event that completed it.
#[derive(Clone)]
pub struct Winner {
    pub player_id: String,
    pub player_name: String,
    pub line: [usize; 5],
    pub at_event_index: usize,
}

impl RoomState {
    /// No two players share an id.
    pub open spec fn ids_distinct(&self) -> bool {
        forall|i: int, j: int|
            0 <= i < j < self.players@.len() ==> #[trigger] self.players@[i].id@
                != #[trigger] self.players@[j].id@
    }

    /// No two players' names agree after lowercasing.
    pub open spec fn names_distinct(&self) -> bool {
        forall|i: int, j: int|
            0 <= i < j < self.players@.len() ==> folded(#[trigger] self.players@[i].name@)
                != folded(#[trigger] self.players@[j].name@)
    }
}

/// The first position at or after `i` of a player with id `id`, if any.
pub open spec fn find_player_from(players: Seq<Player>, id: Seq<char>, i: int) -> Option<int>
    decreases players.len() - i,
{
    if i < 0 || i >= players.len() {
        None
    } else if players[i].id@ == id {
        Some(i)
    } else {
        find_player_from(players, id, i + 1)
    }
}

/// The position of the player with id `id`, if any (the first one).
pub open spec fn find_player(players: Seq<Player>, id: Seq<char>) -> Option<int> {
    find_player_from(players, id, 0)
}


/// Finds the position of the player with id `id` (the first, should two share it).
pub fn find_player_index(players: &Vec<Player>, id: &str) -> (r: Option<usize>)
    ensures
        r matches Some(i) ==> find_player(players@, id@) == Some(i as int) && i < players@.len(),
        r is None ==> find_player(players@, id@) is None,
{
    let target = id.to_owned();
    let mut i: usize = 0;
    while i < players.len()
        invariant
            target@ == id@,
            i <= players@.len(),
            find_player(players@, id@) == find_player_from(players@, id@, i as int),
        decreases players@.len() - i,
    {
        if players[i].id.eq(&target) {
            return Some(i);
        }
        i += 1;
    }
    None
}

} // verus!
