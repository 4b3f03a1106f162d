//! Calling an event in a room: who can call it, which cells it marks, and who
//! wins with it.
use vstd::prelude::*;
use crate::bingo::{winning_line, winning_line_spec};
use crate::models::{CalledEvent, Cell, Player, RoomMeta, RoomState, Status, Winner};
use crate::util::{fold_case, folded};

verus! {

broadcast use vstd::std_specs::hash::group_hash_axioms;

/// A cell is marked by an event when it is not the free cell and its player
/// name and event type agree with the event's after lowercasing (`pl` and
/// `el` are the event's lowercased player name and event type).
pub open spec fn cell_matches(c: Cell, pl: Seq<char>, el: Seq<char>) -> bool {
    !c.is_free && folded(c.player_name@) == pl && folded(c.event_type@) == el
}

/// The indices below `n` of the cells that the event marks.
pub open spec fn matching_below(cells: Seq<Cell>, pl: Seq<char>, el: Seq<char>, n: int) -> Set<usize> {
    Set::new(|i: usize| (i as int) < n && (i as int) < cells.len() && cell_matches(cells[i as int], pl, el))
}

/// The indices of all the cells that the event marks.
pub open spec fn matching_cells(cells: Seq<Cell>, pl: Seq<char>, el: Seq<char>) -> Set<usize> {
    matching_below(cells, pl, el, cells.len() as int)
}

/// The cells below `n`, in increasing order, that the event marks and that were
/// not marked before.
pub open spec fn newly_below(cells: Seq<Cell>, marked: Set<usize>, pl: Seq<char>, el: Seq<char>, n: int) -> Seq<usize>
    decreases n,
{
    if n <= 0 {
        seq![]
    } else {
        let prev = newly_below(cells, marked, pl, el, n - 1);
        if n - 1 < cells.len() && cell_matches(cells[n - 1], pl, el) && !marked.contains((n - 1) as usize) {
            prev.push((n - 1) as usize)
        } else {
            prev
        }
    }
}

/// The cells of `p`'s board, in increasing order, that the event newly marks.
pub open spec fn newly_marked(p: Player, pl: Seq<char>, el: Seq<char>) -> Seq<usize> {
    newly_below(p.board.cells@, p.marked_cells@, pl, el, p.board.cells@.len() as int)
}

/// `new` is `old` after the event: the same player with the matching cells
/// added to the marked ones.
pub open spec fn player_after_event(new: Player, old: Player, pl: Seq<char>, el: Seq<char>) -> bool {
    &&& new.id == old.id
    &&& new.name == old.name
    &&& new.token == old.token
    &&& new.board == old.board
    &&& new.is_host == old.is_host
    &&& new.connected_at == old.connected_at
    &&& new.marked_cells@ == old.marked_cells@.union(matching_cells(old.board.cells@, pl, el))
}

/// Marks on `p`'s board every cell the event matches; returns the cells that
/// were not marked before, in increasing order.
fn mark_player(p: &mut Player, pl: &String, el: &String) -> (newly: Vec<usize>)
    ensures
        player_after_event(*final(p), *old(p), pl@, el@),
        newly@ == newly_marked(*old(p), pl@, el@),
{
    let ghost cells = p.board.cells@;
    let ghost marked0 = p.marked_cells@;
    let n = p.board.cells.len();
    let mut newly: Vec<usize> = Vec::new();
    let mut i: usize = 0;
    while i < n
        invariant
            i <= n,
            n == cells.len(),
            p.id == old(p).id,
            p.name == old(p).name,
            p.token == old(p).token,
            p.board == old(p).board,
            p.is_host == old(p).is_host,
            p.connected_at == old(p).connected_at,
            cells == old(p).board.cells@,
            marked0 == old(p).marked_cells@,
            p.marked_cells@ == marked0.union(matching_below(cells, pl@, el@, i as int)),
            newly@ == newly_below(cells, marked0, pl@, el@, i as int),
        decreases n - i,
    {
        let mut hit = false;
        if !p.board.cells[i].is_free {
            let a = fold_case(p.board.cells[i].player_name.as_str());
            if a.eq(pl) {
                let b = fold_case(p.board.cells[i].event_type.as_str());
                if b.eq(el) {
                    hit = true;
                }
            }
        }
        assert(hit == cell_matches(cells[i as int], pl@, el@));
        if hit {
            let fresh = p.marked_cells.insert(i);
            if fresh {
                newly.push(i);
            }
        }
        assert(p.marked_cells@ =~= marked0.union(matching_below(cells, pl@, el@, i + 1)));
        i += 1;
    }
    assert(matching_below(cells, pl@, el@, i as int) =~= matching_cells(cells, pl@, el@));
    newly
}


/// The cells an event newly marked on one player's board.
pub struct PlayerMarks {
    pub player_id: String,
    pub cells: Vec<usize>,
}

/// What calling an event reports: its position in the event list, the room's
/// new version, and the newly marked cells of every player who got any.
pub struct EventOutcome {
    pub event_index: usize,
    pub version: u64,
    pub marks: Vec<PlayerMarks>,
}

/// For each player (in order) whose board the event newly marks: the player's
/// id and the newly marked cells.
pub open spec fn marks_spec(players: Seq<Player>, pl: Seq<char>, el: Seq<char>) -> Seq<(String, Seq<usize>)>
    decreases players.len(),
{
    if players.len() == 0 {
        seq![]
    } else {
        let prev = marks_spec(players.drop_last(), pl, el);
        let p = players.last();
        if newly_marked(p, pl, el).len() > 0 {
            prev.push((p.id, newly_marked(p, pl, el)))
        } else {
            prev
        }
    }
}

/// Some entry of `winners` is the player with id `id`.
pub open spec fn has_won(winners: Seq<Winner>, id: Seq<char>) -> bool {
    exists|k: int| 0 <= k < winners.len() && #[trigger] winners[k].player_id@ == id
}

/// The players (in order) who have a complete line and are not yet among
/// `winners`.
pub open spec fn new_winner_players(players: Seq<Player>, winners: Seq<Winner>) -> Seq<Player>
    decreases players.len(),
{
    if players.len() == 0 {
        seq![]
    } else {
        let prev = new_winner_players(players.drop_last(), winners);
        let p = players.last();
        if !has_won(winners, p.id@) && winning_line_spec(p.marked_cells@) is Some {
            prev.push(p)
        } else {
            prev
        }
    }
}

/// `w` records that `p` won with its first complete line at event `event_index`.
pub open spec fn is_winner_record(w: Winner, p: Player, event_index: int) -> bool {
    &&& w.player_id == p.id
    &&& w.player_name == p.name
    &&& Some(w.line@) == winning_line_spec(p.marked_cells@)
    &&& w.at_event_index == event_index
}

/// The status after an event: finished when someone won with it; otherwise a
/// waiting room becomes active and any other status stays.
pub open spec fn next_status(old: Status, someone_won: bool) -> Status {
    if someone_won {
        Status::Finished
    } else if old == Status::Waiting {
        Status::Active
    } else {
        old
    }
}

/// `new` is `old` after the host called `event_type` for `player_name` at
/// `timestamp`: the event is appended with its index, every player's matching
/// cells are marked, the players who now complete a line and had not won
/// before are appended to the winners, the status moves on and the version
/// goes up by one.
pub open spec fn event_applied(
    new: RoomState,
    old: RoomState,
    player_name: String,
    event_type: String,
    timestamp: u64,
) -> bool {
    let pl = folded(player_name@);
    let el = folded(event_type@);
    let nw = new_winner_players(new.players@, old.winners@);
    let w0 = old.winners@.len();
    let index = old.events@.len() as usize;
    &&& new.events@ == old.events@.push(
        (CalledEvent { index, player_name, event_type, timestamp, undone: false }),
    )
    &&& new.players@.len() == old.players@.len()
    &&& forall|i: int| 0 <= i < new.players@.len() ==> player_after_event(
        #[trigger] new.players@[i],
        old.players@[i],
        pl,
        el,
    )
    &&& new.winners@.len() == w0 + nw.len()
    &&& forall|k: int| 0 <= k < w0 ==> #[trigger] new.winners@[k] == old.winners@[k]
    &&& forall|k: int| 0 <= k < nw.len() ==> is_winner_record(
        #[trigger] new.winners@[w0 + k],
        nw[k],
        index as int,
    )
    &&& new.status == next_status(old.status, nw.len() > 0)
    &&& new.version == old.version + 1
}

/// Records an event called by the host and scores it: every player's matching
/// cells are marked, players who now complete a line (and had not won before)
/// are added to the winners with this event's index, the status moves on and
/// the version goes up by one.
pub fn apply_event(state: &mut RoomState, player_name: String, event_type: String, timestamp: u64) -> (out: EventOutcome)
    requires
        old(state).version < u64::MAX,
    ensures
        event_applied(*final(state), *old(state), player_name, event_type, timestamp),
        out.event_index == old(state).events@.len(),
        out.version == final(state).version,
        ({
            let ms = marks_spec(old(state).players@, folded(player_name@), folded(event_type@));
            &&& out.marks@.len() == ms.len()
            &&& forall|k: int| 0 <= k < ms.len() ==> #[trigger] out.marks@[k].player_id == ms[k].0
                && out.marks@[k].cells@ == ms[k].1
        }),
{
    let pl = fold_case(player_name.as_str());
    let el = fold_case(event_type.as_str());
    let event_index = state.events.len();
    state.events.push(CalledEvent { index: event_index, player_name, event_type, timestamp, undone: false });

    // Mark matching cells for every player.
    let ghost players0 = state.players@;
    let ghost events1 = state.events@;
    let ghost winners0 = state.winners@;
    let ghost version0 = state.version;
    let ghost status0 = state.status;
    let mut marks: Vec<PlayerMarks> = Vec::new();
    let n = state.players.len();
    let mut i: usize = 0;
    while i < n
        invariant
            i <= n,
            n == players0.len(),
            state.players@.len() == n,
            state.events@ == events1,
            state.winners@ == winners0,
            state.version == version0,
            state.status == status0,
            forall|j: int| 0 <= j < i ==> player_after_event(#[trigger] state.players@[j], players0[j], pl@, el@),
            forall|j: int| i <= j < n ==> #[trigger] state.players@[j] == players0[j],
            marks@.len() == marks_spec(players0.take(i as int), pl@, el@).len(),
            forall|k: int| 0 <= k < marks@.len() ==> #[trigger] marks@[k].player_id
                == marks_spec(players0.take(i as int), pl@, el@)[k].0
                && marks@[k].cells@ == marks_spec(players0.take(i as int), pl@, el@)[k].1,
        decreases n - i,
    {
        let newly = mark_player(&mut state.players[i], &pl, &el);
        proof {
            assert(players0.take(i + 1).drop_last() =~= players0.take(i as int));
        }
        if newly.len() > 0 {
            let id = state.players[i].id.clone();
            marks.push(PlayerMarks { player_id: id, cells: newly });
        }
        i += 1;
    }
    assert(players0.take(n as int) =~= players0);

    // Players who now have a line and had not won before.
    let ghost players1 = state.players@;
    let w0 = state.winners.len();
    let mut fresh: Vec<Winner> = Vec::new();
    let mut i: usize = 0;
    while i < n
        invariant
            i <= n,
            n == players1.len(),
            state.players@ == players1,
            state.events@ == events1,
            state.winners@ == winners0,
            state.version == version0,
            state.status == status0,
            w0 == state.winners@.len(),
            fresh@.len() == new_winner_players(players1.take(i as int), state.winners@).len(),
            forall|k: int| 0 <= k < fresh@.len() ==> is_winner_record(
                #[trigger] fresh@[k],
                new_winner_players(players1.take(i as int), state.winners@)[k],
                event_index as int,
            ),
        decreases n - i,
    {
        proof {
            assert(players1.take(i + 1).drop_last() =~= players1.take(i as int));
        }
        let mut known = false;
        let mut k: usize = 0;
        while k < w0
            invariant
                k <= w0,
                w0 == state.winners@.len(),
                i < n,
                n == state.players@.len(),
                known <==> exists|k2: int| 0 <= k2 < k && #[trigger] state.winners@[k2].player_id@
                    == state.players@[i as int].id@,
            decreases w0 - k,
        {
            if state.winners[k].player_id.eq(&state.players[i].id) {
                known = true;
            }
            k += 1;
        }
        assert(known == has_won(state.winners@, state.players@[i as int].id@));
        if !known {
            match winning_line(&state.players[i].marked_cells) {
                Some(line) => {
                    let w = Winner {
                        player_id: state.players[i].id.clone(),
                        player_name: state.players[i].name.clone(),
                        line,
                        at_event_index: event_index,
                    };
                    fresh.push(w);
                },
                None => {},
            }
        }
        i += 1;
    }
    assert(players1.take(n as int) =~= players1);
    let someone_won = fresh.len() > 0;
    state.winners.append(&mut fresh);
    if someone_won {
        state.status = Status::Finished;
    } else if state.status == Status::Waiting {
        state.status = Status::Active;
    }
    state.version = state.version + 1;
    EventOutcome { event_index, version: state.version, marks }
}


/// Law: calling an event changes no board, and on every player's board a cell
/// is marked afterwards exactly when it was marked before, or it is a cell of
/// the board that is not free and whose player name and event type both equal
/// the called player name and event type ignoring case. A cell of another
/// player or another event type keeps its mark or its lack of one.
pub proof fn lemma_event_marks_exactly_matching_cells(
    new: RoomState,
    old: RoomState,
    player_name: String,
    event_type: String,
    timestamp: u64,
    i: int,
    c: usize,
)
    requires
        event_applied(new, old, player_name, event_type, timestamp),
        0 <= i < old.players@.len(),
    ensures
        new.players@[i].board == old.players@[i].board,
        new.players@[i].marked_cells@.contains(c) <==> {
            ||| old.players@[i].marked_cells@.contains(c)
            ||| {
                let cells = old.players@[i].board.cells@;
                &&& (c as int) < cells.len()
                &&& !cells[c as int].is_free
                &&& folded(cells[c as int].player_name@) == folded(player_name@)
                &&& folded(cells[c as int].event_type@) == folded(event_type@)
            }
        },
{
    assert(player_after_event(new.players@[i], old.players@[i], folded(player_name@), folded(event_type@)));
}

/// Why the host's call of an event is refused before anything changes.
#[derive(Debug, PartialEq, Eq, Structural)]
pub enum CallError {
    /// The event type is not one of the room's (ignoring case).
    UnknownEventType,
    /// The player is not on the room's roster (ignoring case).
    UnknownPlayerName,
}

/// The room has an event type that matches `event_type` ignoring case.
pub open spec fn known_event_type(meta: RoomMeta, event_type: Seq<char>) -> bool {
    exists|k: int|
        0 <= k < meta.event_types@.len() && folded(#[trigger] meta.event_types@[k]@) == folded(event_type)
}

/// The room's roster has a player whose name matches `player_name` ignoring case.
pub open spec fn known_player(meta: RoomMeta, player_name: Seq<char>) -> bool {
    exists|k: int|
        0 <= k < meta.roster@.len() && folded(#[trigger] meta.roster@[k].name@) == folded(player_name)
}

/// Checks that an event names one of the room's event types and one of its
/// roster players; the event type is checked first.
pub fn validate_event(meta: &RoomMeta, player_name: &str, event_type: &str) -> (r: Result<(), CallError>)
    ensures
        !known_event_type(*meta, event_type@) ==> r == Err::<(), CallError>(CallError::UnknownEventType),
        known_event_type(*meta, event_type@) && !known_player(*meta, player_name@) ==> r == Err::<
            (),
            CallError,
        >(CallError::UnknownPlayerName),
        known_event_type(*meta, event_type@) && known_player(*meta, player_name@) ==> r is Ok,
{
    let et_lower = fold_case(event_type);
    let mut found = false;
    let mut k: usize = 0;
    while k < meta.event_types.len()
        invariant
            k <= meta.event_types@.len(),
            et_lower@ == folded(event_type@),
            found <==> exists|k2: int|
                0 <= k2 < k && folded(#[trigger] meta.event_types@[k2]@) == folded(event_type@),
        decreases meta.event_types@.len() - k,
    {
        let e = fold_case(meta.event_types[k].as_str());
        if e.eq(&et_lower) {
            found = true;
        }
        k += 1;
    }
    if !found {
        return Err(CallError::UnknownEventType);
    }
    let pn_lower = fold_case(player_name);
    let mut found = false;
    let mut k: usize = 0;
    while k < meta.roster.len()
        invariant
            k <= meta.roster@.len(),
            pn_lower@ == folded(player_name@),
            found <==> exists|k2: int|
                0 <= k2 < k && folded(#[trigger] meta.roster@[k2].name@) == folded(player_name@),
        decreases meta.roster@.len() - k,
    {
        let p = fold_case(meta.roster[k].name.as_str());
        if p.eq(&pn_lower) {
            found = true;
        }
        k += 1;
    }
    if !found {
        return Err(CallError::UnknownPlayerName);
    }
    Ok(())
}

} // verus!
