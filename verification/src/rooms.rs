//! Creating rooms, joining them, and describing them.
use std::collections::HashSet;
use vstd::prelude::*;
use crate::board::{build_board, dealt_board, dealt_count, FREE_CELL};
use crate::models::{find_player, find_player_from, find_player_index, Player, RoomMeta, RoomState, RosterPlayer, Status};
use crate::util::{fold_case, folded};

verus! {

broadcast use vstd::std_specs::hash::group_hash_axioms;

/// The event types of a new room, in order.
pub open spec fn default_event_names() -> Seq<Seq<char>> {
    seq![
        "single"@, "double"@, "triple"@, "home run"@, "strikeout"@,
        "walk"@, "stolen base"@, "error"@, "double play"@, "hit by pitch"@,
        "wild pitch"@, "passed ball"@, "sacrifice fly"@, "ground out"@, "fly out"@,
    ]
}

/// The event types a new room starts with.
pub fn default_event_types() -> (r: Vec<String>)
    ensures
        r@.len() == 15,
        forall|k: int| 0 <= k < 15 ==> #[trigger] r@[k]@ == default_event_names()[k],
{
    let r = vec![
        "single".to_owned(), "double".to_owned(), "triple".to_owned(), "home run".to_owned(),
        "strikeout".to_owned(), "walk".to_owned(), "stolen base".to_owned(), "error".to_owned(),
        "double play".to_owned(), "hit by pitch".to_owned(), "wild pitch".to_owned(),
        "passed ball".to_owned(), "sacrifice fly".to_owned(), "ground out".to_owned(),
        "fly out".to_owned(),
    ];
    r
}


/// `p` is a player just dealt into a room: the given id, name, token and join
/// time, the board dealt for that id, and only the free centre cell marked.
pub open spec fn fresh_player(
    p: Player,
    meta: RoomMeta,
    room_code: Seq<char>,
    id: String,
    name: String,
    token: String,
    is_host: bool,
    now: u64,
) -> bool {
    &&& p.id == id
    &&& p.name == name
    &&& p.token == token
    &&& p.is_host == is_host
    &&& p.connected_at == now
    &&& p.marked_cells@ == set![12usize]
    &&& dealt_board(p.board, room_code, id@, meta.roster@, meta.event_types@)
    &&& p.board.cells@.len() == dealt_count((meta.roster@.len() * meta.event_types@.len()) as int) + 1
}

/// Deals a player's board and marks its free centre cell.
fn deal_player(
    meta: &RoomMeta,
    room_code: &str,
    id: String,
    name: String,
    token: String,
    is_host: bool,
    now: u64,
) -> (p: Player)
    requires
        meta.roster@.len() * meta.event_types@.len() >= 12,
    ensures
        fresh_player(p, *meta, room_code@, id, name, token, is_host, now),
{
    let board = build_board(room_code, id.as_str(), meta.roster.as_slice(), meta.event_types.as_slice());
    let mut marked: HashSet<usize> = HashSet::new();
    marked.insert(FREE_CELL);
    assert(marked@ =~= set![12usize]);
    Player { id, name, token, board, marked_cells: marked, is_host, connected_at: now }
}

/// Sets up a new room: its description (with the default event types) and
/// its first state, version 1 and waiting, whose only player is the host.
pub fn new_room(
    code: String,
    host_name: String,
    team_id: u32,
    roster: Vec<RosterPlayer>,
    host_token: String,
    host_id: String,
    host_player_token: String,
    now: u64,
) -> (r: (RoomMeta, RoomState))
    requires
        roster@.len() >= 1,
    ensures
        r.0.code == code,
        r.0.host_name == host_name,
        r.0.host_token == host_token,
        r.0.team_id == team_id,
        r.0.roster == roster,
        r.0.event_types@.len() == 15,
        forall|k: int| 0 <= k < 15 ==> #[trigger] r.0.event_types@[k]@ == default_event_names()[k],
        r.0.created_at == now,
        r.1.version == 1,
        r.1.status == Status::Waiting,
        r.1.events@.len() == 0,
        r.1.winners@.len() == 0,
        r.1.players@.len() == 1,
        fresh_player(r.1.players@[0], r.0, code@, host_id, host_name, host_player_token, true, now),
{
    let event_types = default_event_types();
    let meta = RoomMeta {
        code,
        host_name,
        host_token,
        team_id,
        roster,
        event_types,
        created_at: now,
    };
    assert(meta.roster@.len() * meta.event_types@.len() >= 12) by (nonlinear_arith)
        requires
            meta.roster@.len() >= 1,
            meta.event_types@.len() == 15,
    ;
    let name = meta.host_name.clone();
    let host = deal_player(&meta, meta.code.as_str(), host_id, name, host_player_token, true, now);
    let mut players: Vec<Player> = Vec::new();
    players.push(host);
    let state = RoomState {
        version: 1,
        status: Status::Waiting,
        players,
        events: Vec::new(),
        winners: Vec::new(),
    };
    (meta, state)
}


/// Why a player may not join a room.
#[derive(Debug, PartialEq, Eq, Structural)]
pub enum JoinError {
    /// The room's game is over.
    Finished,
    /// A player of the room already has this name (ignoring case).
    NameTaken,
}

/// Some player of the room has `name`, ignoring case.
pub open spec fn name_taken(players: Seq<Player>, name: Seq<char>) -> bool {
    exists|i: int| 0 <= i < players.len() && folded(#[trigger] players[i].name@) == folded(name)
}

/// Decides whether a player called `name` may join: not once the room is
/// finished, and not under a name already taken ignoring case.
pub fn check_join(state: &RoomState, name: &str) -> (r: Result<(), JoinError>)
    ensures
        state.status == Status::Finished ==> r == Err::<(), JoinError>(JoinError::Finished),
        state.status != Status::Finished && name_taken(state.players@, name@) ==> r == Err::<
            (),
            JoinError,
        >(JoinError::NameTaken),
        state.status != Status::Finished && !name_taken(state.players@, name@) ==> r is Ok,
{
    if state.status == Status::Finished {
        return Err(JoinError::Finished);
    }
    let name_lower = fold_case(name);
    let mut i: usize = 0;
    while i < state.players.len()
        invariant
            i <= state.players@.len(),
            state.status != Status::Finished,
            name_lower@ == folded(name@),
            forall|j: int| 0 <= j < i ==> folded(#[trigger] state.players@[j].name@) != folded(name@),
        decreases state.players@.len() - i,
    {
        let other = fold_case(state.players[i].name.as_str());
        if other.eq(&name_lower) {
            return Err(JoinError::NameTaken);
        }
        i += 1;
    }
    Ok(())
}

/// `new` is `old` with player `p` put in at position `idx`: in place of the
/// player with the same id if there is one, else at the end; the version goes
/// up by one and nothing else changes.
pub open spec fn player_added(new: RoomState, old: RoomState, p: Player, idx: int) -> bool {
    &&& new.version == old.version + 1
    &&& new.status == old.status
    &&& new.events@ == old.events@
    &&& new.winners@ == old.winners@
    &&& match find_player(old.players@, p.id@) {
        Some(j) => idx == j && new.players@ == old.players@.update(j, p),
        None => idx == old.players@.len() && new.players@ == old.players@.push(p),
    }
}

/// Deals a board to a joining player and puts the player in the room (in
/// place of a player with the same id, should there be one); returns where
/// the player now stands.
pub fn add_player(
    state: &mut RoomState,
    meta: &RoomMeta,
    room_code: &str,
    id: String,
    name: String,
    token: String,
    now: u64,
) -> (idx: usize)
    requires
        old(state).version < u64::MAX,
        meta.roster@.len() * meta.event_types@.len() >= 12,
    ensures
        idx < final(state).players@.len(),
        player_added(*final(state), *old(state), final(state).players@[idx as int], idx as int),
        fresh_player(final(state).players@[idx as int], *meta, room_code@, id, name, token, false, now),
{
    let p = deal_player(meta, room_code, id, name, token, false, now);
    let found = find_player_index(&state.players, p.id.as_str());
    let idx = match found {
        Some(j) => {
            state.players.set(j, p);
            j
        },
        None => {
            state.players.push(p);
            state.players.len() - 1
        },
    };
    state.version = state.version + 1;
    idx
}

/// Law: a join that `check_join` allows keeps the players' ids distinct and
/// their names distinct ignoring case.
pub proof fn lemma_join_keeps_players_distinct(old: RoomState, new: RoomState, p: Player, idx: int)
    requires
        old.ids_distinct(),
        old.names_distinct(),
        !name_taken(old.players@, p.name@),
        player_added(new, old, p, idx),
    ensures
        new.ids_distinct(),
        new.names_distinct(),
{
    lemma_find_player_none(old.players@, p.id@, 0);
    lemma_find_player_some(old.players@, p.id@, 0);
    assert(forall|i: int| 0 <= i < old.players@.len() ==> folded(#[trigger] old.players@[i].name@) != folded(p.name@));
}

proof fn lemma_find_player_none(players: Seq<Player>, id: Seq<char>, i: int)
    requires
        0 <= i,
    ensures
        find_player_from(players, id, i) is None ==> forall|j: int| i <= j < players.len() ==> #[trigger] players[j].id@ != id,
    decreases players.len() - i,
{
    if i < players.len() {
        lemma_find_player_none(players, id, i + 1);
    }
}

proof fn lemma_find_player_some(players: Seq<Player>, id: Seq<char>, i: int)
    requires
        0 <= i,
    ensures
        find_player_from(players, id, i) matches Some(j) ==> i <= j < players.len() && players[j].id@ == id,
    decreases players.len() - i,
{
    if i < players.len() {
        lemma_find_player_some(players, id, i + 1);
    }
}


/// How many fresh codes are tried before creating a room gives up.
pub const CODE_ATTEMPTS: u32 = 5;

/// What to do with a freshly generated room code.
#[derive(Debug, PartialEq, Eq, Structural)]
pub enum CodeStep {
    /// The code is free: the room gets it.
    Accept,
    /// The code is taken: try a new one.
    Retry,
    /// The code is taken and no tries are left: creating the room fails.
    GiveUp,
}

/// Decides on the `attempt`-th generated code (counting from 1) given whether
/// a room already has it.
pub fn next_code_step(attempt: u32, taken: bool) -> (step: CodeStep)
    ensures
        !taken ==> step == CodeStep::Accept,
        taken && attempt < CODE_ATTEMPTS ==> step == CodeStep::Retry,
        taken && attempt >= CODE_ATTEMPTS ==> step == CodeStep::GiveUp,
{
    if !taken {
        CodeStep::Accept
    } else if attempt < CODE_ATTEMPTS {
        CodeStep::Retry
    } else {
        CodeStep::GiveUp
    }
}

/// The name of the team whose games the rooms follow.
pub open spec fn team_name() -> Seq<char> {
    "Guardians"@
}

/// What anyone may see of a room before joining it.
pub struct RoomInfo {
    pub host_name: String,
    pub player_count: usize,
    pub status: Status,
    pub team_name: String,
    pub event_types: Vec<String>,
}

/// Describes a room: its host, how many players it has, its status, the
/// team, and its event types.
pub fn room_info(meta: &RoomMeta, state: &RoomState) -> (info: RoomInfo)
    ensures
        info.host_name == meta.host_name,
        info.player_count == state.players@.len(),
        info.status == state.status,
        info.team_name@ == team_name(),
        info.event_types@ == meta.event_types@,
{
    let mut event_types: Vec<String> = Vec::new();
    let mut k: usize = 0;
    while k < meta.event_types.len()
        invariant
            k <= meta.event_types@.len(),
            event_types@ == meta.event_types@.take(k as int),
        decreases meta.event_types@.len() - k,
    {
        event_types.push(meta.event_types[k].clone());
        assert(meta.event_types@.take(k + 1) =~= meta.event_types@.take(k as int).push(meta.event_types@[k as int]));
        k += 1;
    }
    assert(meta.event_types@.take(k as int) =~= meta.event_types@);
    RoomInfo {
        host_name: meta.host_name.clone(),
        player_count: state.players.len(),
        status: state.status,
        team_name: "Guardians".to_owned(),
        event_types,
    }
}

} // verus!
