//! What a player polling a room is shown.
use vstd::prelude::*;
use crate::decimal::{parse_decimal, parse_unsigned};
use crate::models::{find_player, find_player_index, RoomState, Status};

verus! {

broadcast use vstd::std_specs::hash::group_hash_axioms;

/// What the room shows of one player.
pub struct PlayerSummary {
    pub id: String,
    pub name: String,
    pub is_host: bool,
    pub marked_count: usize,
}

/// A room as shown to a poller whose copy is out of date: the version, the
/// status, a summary of every player, and the position of the poller's own
/// player (whose board and marks are shown in full), if it is in the room.
pub struct PollView {
    pub version: u64,
    pub status: Status,
    pub players: Vec<PlayerSummary>,
    pub you: Option<usize>,
}

/// The version a poller says it has: the `version` query value read as an
/// unsigned number, or 0 when it is not one.
pub fn parse_version(s: &str) -> (v: u64)
    ensures
        v as nat == match parse_unsigned(s@, u64::MAX as nat) {
            Some(n) => n,
            None => 0,
        },
{
    match parse_decimal(s, u64::MAX) {
        Some(v) => v,
        None => 0,
    }
}

/// Answers a poll: nothing when the poller already has the room's current
/// version, else the room's view for it.
pub fn poll_view(state: &RoomState, since_version: u64, player_id: Option<&str>) -> (r: Option<PollView>)
    ensures
        state.version == since_version ==> r is None,
        state.version != since_version ==> (r matches Some(v) && {
            &&& v.version == state.version
            &&& v.status == state.status
            &&& v.players@.len() == state.players@.len()
            &&& forall|i: int| 0 <= i < state.players@.len() ==> {
                let s = #[trigger] v.players@[i];
                let p = state.players@[i];
                &&& s.id == p.id
                &&& s.name == p.name
                &&& s.is_host == p.is_host
                &&& s.marked_count == p.marked_cells@.len()
            }
            &&& v.you == match player_id {
                Some(pid) => match find_player(state.players@, pid@) {
                    Some(i) => Some(i as usize),
                    None => None,
                },
                None => None::<usize>,
            }
        }),
{
    if state.version == since_version {
        return None;
    }
    let mut players: Vec<PlayerSummary> = Vec::new();
    let mut i: usize = 0;
    while i < state.players.len()
        invariant
            i <= state.players@.len(),
            players@.len() == i,
            forall|j: int| 0 <= j < i ==> {
                let s = #[trigger] players@[j];
                let p = state.players@[j];
                &&& s.id == p.id
                &&& s.name == p.name
                &&& s.is_host == p.is_host
                &&& s.marked_count == p.marked_cells@.len()
            },
        decreases state.players@.len() - i,
    {
        let p = &state.players[i];
        players.push(
            PlayerSummary {
                id: p.id.clone(),
                name: p.name.clone(),
                is_host: p.is_host,
                marked_count: p.marked_cells.len(),
            },
        );
        i += 1;
    }
    let you = match player_id {
        Some(pid) => find_player_index(&state.players, pid),
        None => None,
    };
    Some(PollView { version: state.version, status: state.status, players, you })
}

} // verus!
