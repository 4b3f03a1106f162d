//! What every room operation keeps: the consistency of a room's state, and
//! the proofs that creating a room, calling an event and joining keep it.
use vstd::prelude::*;
use crate::bingo::{first_complete_line, line_complete, line_seq, winning_line_spec};
use crate::events::{event_applied, has_won, new_winner_players, player_after_event};
use crate::models::{find_player, Player, RoomState, Status, Winner, status_rank};
use crate::rooms::{name_taken, player_added};
use crate::util::folded;

verus! {

/// Winner `w` is backed by the room: its event was called, its line is one of
/// the twelve lines of the board, and a player with its id has every cell of
/// that line marked.
pub open spec fn winner_backed(s: RoomState, w: Winner) -> bool {
    &&& w.at_event_index < s.events@.len()
    &&& exists|k: int| 0 <= k < 12 && w.line@ == #[trigger] line_seq(k)
    &&& exists|i: int|
        0 <= i < s.players@.len() && #[trigger] s.players@[i].id@ == w.player_id@ && forall|m: int|
            0 <= m < 5 ==> s.players@[i].marked_cells@.contains(#[trigger] w.line@[m])
}

/// A room's state is consistent: players have distinct ids and (ignoring
/// case) distinct names, every board has its free centre cell marked and no
/// mark outside its cells, the room
/// is waiting exactly while no event was called and finished exactly once
/// somebody won, and every winner is a distinct player whose line is marked.
pub open spec fn consistent(s: RoomState) -> bool {
    &&& s.ids_distinct()
    &&& s.names_distinct()
    &&& forall|i: int| 0 <= i < s.players@.len() ==> (#[trigger] s.players@[i]).marked_cells@.contains(12usize)
    &&& forall|i: int, c: usize|
        0 <= i < s.players@.len() && #[trigger] s.players@[i].marked_cells@.contains(c) ==> (c as int)
            < s.players@[i].board.cells@.len()
    &&& (s.status == Status::Waiting <==> s.events@.len() == 0)
    &&& (s.status == Status::Finished <==> s.winners@.len() > 0)
    &&& forall|k: int| 0 <= k < s.winners@.len() ==> winner_backed(s, #[trigger] s.winners@[k])
    &&& forall|k1: int, k2: int|
        0 <= k1 < k2 < s.winners@.len() ==> #[trigger] s.winners@[k1].player_id@
            != #[trigger] s.winners@[k2].player_id@
}

/// A winning line's cells are all marked.
proof fn lemma_winning_line_marked(marked: Set<usize>)
    requires
        winning_line_spec(marked) is Some,
    ensures
        forall|m: int| 0 <= m < 5 ==> marked.contains(#[trigger] winning_line_spec(marked)->0[m]),
        exists|k: int| 0 <= k < 12 && winning_line_spec(marked)->0 == #[trigger] line_seq(k),
{
    let k = first_complete_line(marked)->0;
    assert(line_complete(marked, k));
    assert(winning_line_spec(marked)->0 == line_seq(k));
}

/// Every new winner is one of the players, has not won before, and has a
/// complete line; with distinct player ids, the new winners are distinct.
proof fn lemma_new_winner_players(ps: Seq<Player>, w: Seq<Winner>)
    ensures
        forall|k: int| 0 <= k < new_winner_players(ps, w).len() ==> {
            let p = #[trigger] new_winner_players(ps, w)[k];
            &&& ps.contains(p)
            &&& !has_won(w, p.id@)
            &&& winning_line_spec(p.marked_cells@) is Some
        },
        (forall|i: int, j: int| 0 <= i < j < ps.len() ==> #[trigger] ps[i].id@ != #[trigger] ps[j].id@)
            ==> forall|k1: int, k2: int|
            0 <= k1 < k2 < new_winner_players(ps, w).len() ==> #[trigger] new_winner_players(ps, w)[k1].id@
                != #[trigger] new_winner_players(ps, w)[k2].id@,
    decreases ps.len(),
{
    if ps.len() > 0 {
        let rest = ps.drop_last();
        lemma_new_winner_players(rest, w);
        let prev = new_winner_players(rest, w);
        assert forall|k: int| 0 <= k < prev.len() implies ps.contains(#[trigger] prev[k]) by {
            let j = choose|j: int| 0 <= j < rest.len() && rest[j] == prev[k];
            assert(ps[j] == prev[k]);
        }
        if forall|i: int, j: int| 0 <= i < j < ps.len() ==> #[trigger] ps[i].id@ != #[trigger] ps[j].id@ {
            assert(forall|i: int, j: int| 0 <= i < j < rest.len() ==> #[trigger] rest[i].id@ != #[trigger] rest[j].id@) by {
                assert forall|i: int, j: int| 0 <= i < j < rest.len() implies #[trigger] rest[i].id@ != #[trigger] rest[j].id@ by {
                    assert(rest[i] == ps[i] && rest[j] == ps[j]);
                }
            }
            assert forall|k: int| 0 <= k < prev.len() implies (#[trigger] prev[k]).id@ != ps.last().id@ by {
                let j = choose|j: int| 0 <= j < rest.len() && rest[j] == prev[k];
                assert(ps[j] == prev[k]);
                assert(ps[j].id@ != ps[ps.len() - 1].id@);
            }
        }
    }
}

/// Law: a newly created room is consistent (its host is its only player, with
/// only the free cell marked).
pub proof fn lemma_new_room_consistent(s: RoomState)
    requires
        s.status == Status::Waiting,
        s.events@.len() == 0,
        s.winners@.len() == 0,
        s.players@.len() == 1,
        s.players@[0].marked_cells@ == set![12usize],
        12 < s.players@[0].board.cells@.len(),
    ensures
        consistent(s),
{
}

/// Law: calling an event keeps a room consistent.
pub proof fn lemma_event_keeps_consistent(
    new: RoomState,
    old: RoomState,
    player_name: String,
    event_type: String,
    timestamp: u64,
)
    requires
        consistent(old),
        event_applied(new, old, player_name, event_type, timestamp),
    ensures
        consistent(new),
{
    let pl = folded(player_name@);
    let el = folded(event_type@);
    let nw = new_winner_players(new.players@, old.winners@);
    let w0 = old.winners@.len();
    assert forall|i: int, j: int| 0 <= i < j < new.players@.len() implies #[trigger] new.players@[i].id@
        != #[trigger] new.players@[j].id@ by {
        assert(player_after_event(new.players@[i], old.players@[i], pl, el));
        assert(player_after_event(new.players@[j], old.players@[j], pl, el));
        assert(old.players@[i].id@ != old.players@[j].id@);
    }
    assert forall|i: int, j: int| 0 <= i < j < new.players@.len() implies folded(#[trigger] new.players@[i].name@)
        != folded(#[trigger] new.players@[j].name@) by {
        assert(player_after_event(new.players@[i], old.players@[i], pl, el));
        assert(player_after_event(new.players@[j], old.players@[j], pl, el));
        assert(folded(old.players@[i].name@) != folded(old.players@[j].name@));
    }
    assert forall|i: int| 0 <= i < new.players@.len() implies (#[trigger] new.players@[i]).marked_cells@.contains(12usize) by {
        assert(player_after_event(new.players@[i], old.players@[i], pl, el));
        assert(old.players@[i].marked_cells@.contains(12usize));
    }
    lemma_new_winner_players(new.players@, old.winners@);
    assert forall|k: int| 0 <= k < new.winners@.len() implies winner_backed(new, #[trigger] new.winners@[k]) by {
        if k < w0 {
            assert(new.winners@[k] == old.winners@[k]);
            assert(winner_backed(old, old.winners@[k]));
            let w = old.winners@[k];
            let i = choose|i: int|
                0 <= i < old.players@.len() && #[trigger] old.players@[i].id@ == w.player_id@ && forall|m: int|
                    0 <= m < 5 ==> old.players@[i].marked_cells@.contains(#[trigger] w.line@[m]);
            assert(player_after_event(new.players@[i], old.players@[i], pl, el));
            assert(new.players@[i].id@ == w.player_id@);
            assert forall|m: int| 0 <= m < 5 implies new.players@[i].marked_cells@.contains(#[trigger] w.line@[m]) by {
                assert(old.players@[i].marked_cells@.contains(w.line@[m]));
            }
        } else {
            let q = k - w0;
            let p = nw[q];
            assert(new.winners@[w0 + q] == new.winners@[k]);
            assert(new.players@.contains(p));
            let i = choose|i: int| 0 <= i < new.players@.len() && new.players@[i] == p;
            lemma_winning_line_marked(p.marked_cells@);
            let w = new.winners@[k];
            assert(Some(w.line@) == winning_line_spec(p.marked_cells@));
            assert(new.players@[i].id@ == w.player_id@);
            assert forall|m: int| 0 <= m < 5 implies new.players@[i].marked_cells@.contains(#[trigger] w.line@[m]) by {
                assert(w.line@[m] == winning_line_spec(p.marked_cells@)->0[m]);
            }
        }
    }
    assert forall|k1: int, k2: int| 0 <= k1 < k2 < new.winners@.len() implies #[trigger] new.winners@[k1].player_id@
        != #[trigger] new.winners@[k2].player_id@ by {
        if k2 < w0 {
            assert(new.winners@[k1] == old.winners@[k1]);
            assert(new.winners@[k2] == old.winners@[k2]);
        } else if k1 < w0 {
            let p = nw[k2 - w0];
            assert(new.winners@[w0 + (k2 - w0)] == new.winners@[k2]);
            assert(!has_won(old.winners@, p.id@));
            assert(new.winners@[k1] == old.winners@[k1]);
        } else {
            assert(new.winners@[w0 + (k1 - w0)] == new.winners@[k1]);
            assert(new.winners@[w0 + (k2 - w0)] == new.winners@[k2]);
            assert(nw[k1 - w0].id@ != nw[k2 - w0].id@);
        }
    }
}

/// Law: calling an event never moves a room back to an earlier status.
pub proof fn lemma_event_status_monotone(
    new: RoomState,
    old: RoomState,
    player_name: String,
    event_type: String,
    timestamp: u64,
)
    requires
        event_applied(new, old, player_name, event_type, timestamp),
    ensures
        status_rank(new.status) >= status_rank(old.status),
        new.status != Status::Waiting,
{
}

/// Law: a join that `check_join` allows, under an id no player has yet,
/// keeps a room consistent and does not change its status.
pub proof fn lemma_join_keeps_consistent(new: RoomState, old: RoomState, p: Player, idx: int)
    requires
        consistent(old),
        old.status != Status::Finished,
        !name_taken(old.players@, p.name@),
        find_player(old.players@, p.id@) is None,
        p.marked_cells@ == set![12usize],
        12 < p.board.cells@.len(),
        player_added(new, old, p, idx),
    ensures
        consistent(new),
        new.status == old.status,
{
    crate::rooms::lemma_join_keeps_players_distinct(old, new, p, idx);
    assert(new.players@ == old.players@.push(p));
    assert forall|k: int| 0 <= k < new.winners@.len() implies winner_backed(new, #[trigger] new.winners@[k]) by {
        let w = old.winners@[k];
        assert(winner_backed(old, w));
        let i = choose|i: int|
            0 <= i < old.players@.len() && #[trigger] old.players@[i].id@ == w.player_id@ && forall|m: int|
                0 <= m < 5 ==> old.players@[i].marked_cells@.contains(#[trigger] w.line@[m]);
        assert(new.players@[i] == old.players@[i]);
    }
}

} // verus!
