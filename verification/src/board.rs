//! Dealing a player's board from the roster and the event types.
use vstd::prelude::*;
use vstd::utf8::encode_utf8;
use crate::models::{Board, Cell, RosterPlayer};
use crate::rng::{fisher_yates, fnv1a, hash_seed, shuffle, XorShift64};

verus! {

/// The number of dealt (non-free) cells on a full board.
pub const DEALT_CELLS: usize = 24;

/// The index of the free centre cell.
pub const FREE_CELL: usize = 12;

/// The string a board's seed is hashed from: the room code, `|`, the player id.
pub open spec fn board_key(room_code: Seq<char>, player_id: Seq<char>) -> Seq<char> {
    room_code + seq!['|'] + player_id
}

/// The seed of the board dealt to `player_id` in room `room_code`.
pub open spec fn board_seed(room_code: Seq<char>, player_id: Seq<char>) -> u64 {
    fnv1a(encode_utf8(board_key(room_code, player_id)))
}

/// Every (player name, event type) pair of one roster player, in event order.
pub open spec fn pairs_row(name: String, events: Seq<String>) -> Seq<(String, String)> {
    events.map_values(|e: String| (name, e))
}

/// Every (player name, event type) pair: roster order first, then event order.
pub open spec fn pool_spec(roster: Seq<RosterPlayer>, events: Seq<String>) -> Seq<(String, String)>
    decreases roster.len(),
{
    if roster.len() == 0 {
        seq![]
    } else {
        pool_spec(roster.drop_last(), events) + pairs_row(roster.last().name, events)
    }
}

/// The pool has one pair per roster player and event type.
pub proof fn lemma_pool_len(roster: Seq<RosterPlayer>, events: Seq<String>)
    ensures
        pool_spec(roster, events).len() == roster.len() * events.len(),
    decreases roster.len(),
{
    if roster.len() > 0 {
        lemma_pool_len(roster.drop_last(), events);
        assert((roster.len() - 1) * events.len() + events.len() == roster.len() * events.len())
            by (nonlinear_arith);
    }
}

/// The pool after shuffling with the generator seeded for this board.
pub open spec fn shuffled_pool(
    room_code: Seq<char>,
    player_id: Seq<char>,
    roster: Seq<RosterPlayer>,
    events: Seq<String>,
) -> Seq<(String, String)> {
    fisher_yates(pool_spec(roster, events), board_seed(room_code, player_id) | 1).0
}

/// How many pairs are dealt: 24, or all of them when the pool is smaller.
pub open spec fn dealt_count(pool_len: int) -> int {
    if pool_len < DEALT_CELLS { pool_len } else { DEALT_CELLS as int }
}

/// Where the `k`-th dealt pair lands: the free cell sits at index 12, so
/// pairs from the 13th on move one place right.
pub open spec fn dealt_position(k: int) -> int {
    if k < 12 { k } else { k + 1 }
}

/// `c` is the dealt cell for pair `p`.
pub open spec fn is_dealt_cell(c: Cell, p: (String, String)) -> bool {
    c.player_name == p.0 && c.event_type == p.1 && !c.is_free
}

/// `c` is the free centre cell.
pub open spec fn is_free_cell(c: Cell) -> bool {
    c.player_name@ == Seq::<char>::empty() && c.event_type@ == "FREE"@ && c.is_free
}

/// `board` is the board dealt to `player_id` in room `room_code` from this
/// roster and these event types: its seed, then the first (up to) 24 pairs of
/// the shuffled pool in order around the free centre cell.
pub open spec fn dealt_board(
    board: Board,
    room_code: Seq<char>,
    player_id: Seq<char>,
    roster: Seq<RosterPlayer>,
    events: Seq<String>,
) -> bool {
    let sh = shuffled_pool(room_code, player_id, roster, events);
    &&& board.seed == board_seed(room_code, player_id)
    &&& board.cells@.len() == dealt_count(sh.len() as int) + 1
    &&& is_free_cell(board.cells@[12])
    &&& forall|k: int|
        0 <= k < dealt_count(sh.len() as int) ==> #[trigger] is_dealt_cell(
            board.cells@[dealt_position(k)],
            sh[k],
        )
}

/// Deals the board of `player_id` in room `room_code`: every (roster player,
/// event type) pair is shuffled with a generator seeded from the room code and
/// the player id, the first 24 pairs become the cells, and a free cell is put
/// in the centre (index 12).
pub fn build_board(
    room_code: &str,
    player_id: &str,
    roster: &[RosterPlayer],
    event_types: &[String],
) -> (board: Board)
    requires
        roster@.len() * event_types@.len() >= 12,
    ensures
        dealt_board(board, room_code@, player_id@, roster@, event_types@),
        board.cells@.len() == dealt_count((roster@.len() * event_types@.len()) as int) + 1,
{
    proof {
        reveal_strlit("|");
        reveal_strlit("FREE");
        lemma_pool_len(roster@, event_types@);
    }
    let mut key = room_code.to_owned();
    key.append("|");
    key.append(player_id);
    assert(key@ =~= board_key(room_code@, player_id@));
    let seed = hash_seed(key.as_str());
    let mut rng = XorShift64(seed | 1);

    let mut pool: Vec<(String, String)> = Vec::new();
    let mut r: usize = 0;
    while r < roster.len()
        invariant
            r <= roster@.len(),
            pool@ == pool_spec(roster@.take(r as int), event_types@),
        decreases roster@.len() - r,
    {
        let mut e: usize = 0;
        while e < event_types.len()
            invariant
                r < roster@.len(),
                e <= event_types@.len(),
                pool@ == pool_spec(roster@.take(r as int), event_types@) + pairs_row(
                    roster@[r as int].name,
                    event_types@,
                ).take(e as int),
            decreases event_types@.len() - e,
        {
            let name = roster[r].name.clone();
            let event = event_types[e].clone();
            pool.push((name, event));
            proof {
                let row = pairs_row(roster@[r as int].name, event_types@);
                assert(row.take(e + 1) =~= row.take(e as int).push(row[e as int]));
            }
            e += 1;
        }
        proof {
            let row = pairs_row(roster@[r as int].name, event_types@);
            assert(row.take(e as int) =~= row);
            assert(roster@.take(r + 1).drop_last() =~= roster@.take(r as int));
        }
        r += 1;
    }
    assert(roster@.take(r as int) =~= roster@);
    let ghost pool0 = pool@;
    let n = pool.len();
    shuffle(pool.as_mut_slice(), &mut rng);
    proof {
        crate::rng::lemma_shuffle_is_permutation(pool0, seed | 1);
        assert(pool@ == shuffled_pool(room_code@, player_id@, roster@, event_types@));
    }
    let t = if n < DEALT_CELLS { n } else { DEALT_CELLS };
    let mut cells: Vec<Cell> = Vec::new();
    let mut k: usize = 0;
    while k < t
        invariant
            k <= t <= pool@.len(),
            cells@.len() == k,
            forall|k2: int| 0 <= k2 < k ==> #[trigger] is_dealt_cell(cells@[k2], pool@[k2]),
        decreases t - k,
    {
        let c = Cell {
            player_name: pool[k].0.clone(),
            event_type: pool[k].1.clone(),
            is_free: false,
        };
        cells.push(c);
        k += 1;
    }
    let free = Cell { player_name: String::new(), event_type: "FREE".to_owned(), is_free: true };
    cells.insert(FREE_CELL, free);
    Board { cells, seed }
}


/// The pool holds the pair of roster player `r` and event type `e`.
proof fn lemma_pool_has_pair(roster: Seq<RosterPlayer>, events: Seq<String>, r: int, e: int)
    requires
        0 <= r < roster.len(),
        0 <= e < events.len(),
    ensures
        pool_spec(roster, events).contains((roster[r].name, events[e])),
    decreases roster.len(),
{
    let prev = pool_spec(roster.drop_last(), events);
    let row = pairs_row(roster.last().name, events);
    let pool = pool_spec(roster, events);
    assert(pool == prev + row);
    if r == roster.len() - 1 {
        assert(pool[prev.len() + e] == row[e]);
    } else {
        lemma_pool_has_pair(roster.drop_last(), events, r, e);
        let j = choose|j: int| 0 <= j < prev.len() && prev[j] == (roster.drop_last()[r].name, events[e]);
        assert(pool[j] == prev[j]);
    }
}

/// Every entry of the pool is the pair of some roster player and event type.
proof fn lemma_pool_entry(roster: Seq<RosterPlayer>, events: Seq<String>, k: int)
    requires
        0 <= k < pool_spec(roster, events).len(),
    ensures
        exists|r: int, e: int|
            0 <= r < roster.len() && 0 <= e < events.len() && pool_spec(roster, events)[k] == (
            #[trigger] roster[r].name,
            #[trigger] events[e],
        ),
    decreases roster.len(),
{
    let prev = pool_spec(roster.drop_last(), events);
    let row = pairs_row(roster.last().name, events);
    let pool = pool_spec(roster, events);
    assert(pool == prev + row);
    if k < prev.len() {
        lemma_pool_entry(roster.drop_last(), events, k);
        let (r, e) = choose|r: int, e: int|
            0 <= r < roster.drop_last().len() && 0 <= e < events.len() && prev[k] == (
            #[trigger] roster.drop_last()[r].name,
            #[trigger] events[e],
        );
        assert(roster.drop_last()[r] == roster[r]);
        assert(pool[k] == (roster[r].name, events[e]));
    } else {
        let e = k - prev.len();
        let r = roster.len() - 1;
        assert(pool[k] == row[e]);
        assert(pool[k] == (roster[r].name, events[e]));
    }
}

/// Law: the sequence a board is dealt from is a shuffle of the whole pool: it
/// has one entry per (roster player, event type) pair, the same pairs as the
/// pool as often as the pool has them, every pair of a roster player's name
/// and an event type of the room is in it (so any of them can land on a
/// board), and every entry is such a pair.
pub proof fn lemma_deal_order_is_whole_pool(
    room_code: Seq<char>,
    player_id: Seq<char>,
    roster: Seq<RosterPlayer>,
    events: Seq<String>,
)
    requires
        roster.len() * events.len() <= usize::MAX,
    ensures
        ({
            let sh = shuffled_pool(room_code, player_id, roster, events);
            &&& sh.len() == roster.len() * events.len()
            &&& sh.to_multiset() == pool_spec(roster, events).to_multiset()
            &&& forall|r: int, e: int|
                0 <= r < roster.len() && 0 <= e < events.len() ==> sh.contains(
                    (#[trigger] roster[r].name, #[trigger] events[e]),
                )
            &&& forall|k: int| 0 <= k < sh.len() ==> exists|r: int, e: int|
                0 <= r < roster.len() && 0 <= e < events.len() && #[trigger] sh[k] == (
                    roster[r].name,
                    events[e],
                )
        }),
{
    broadcast use vstd::seq_lib::to_multiset_contains;

    let pool = pool_spec(roster, events);
    lemma_pool_len(roster, events);
    crate::rng::lemma_shuffle_is_permutation(pool, board_seed(room_code, player_id) | 1);
    let sh = shuffled_pool(room_code, player_id, roster, events);
    assert forall|r: int, e: int| 0 <= r < roster.len() && 0 <= e < events.len() implies sh.contains(
        (#[trigger] roster[r].name, #[trigger] events[e]),
    ) by {
        lemma_pool_has_pair(roster, events, r, e);
        assert(pool.to_multiset().count((roster[r].name, events[e])) > 0);
    }
    assert forall|k: int| 0 <= k < sh.len() implies exists|r: int, e: int|
        0 <= r < roster.len() && 0 <= e < events.len() && #[trigger] sh[k] == (roster[r].name, events[e]) by {
        assert(sh.contains(sh[k]));
        assert(pool.to_multiset().count(sh[k]) > 0);
        assert(pool.contains(sh[k]));
        let j = choose|j: int| 0 <= j < pool.len() && pool[j] == sh[k];
        lemma_pool_entry(roster, events, j);
    }
}

/// Two cells show the same player name, event type and freeness.
pub open spec fn same_cell(a: Cell, b: Cell) -> bool {
    a.player_name@ == b.player_name@ && a.event_type@ == b.event_type@ && a.is_free == b.is_free
}

/// Law: a board is determined by the room code, the player id, the roster and
/// the event types; dealing twice from the same inputs gives the same board.
pub proof fn lemma_dealt_board_deterministic(
    b1: Board,
    b2: Board,
    room_code: Seq<char>,
    player_id: Seq<char>,
    roster: Seq<RosterPlayer>,
    events: Seq<String>,
)
    requires
        dealt_board(b1, room_code, player_id, roster, events),
        dealt_board(b2, room_code, player_id, roster, events),
        12 <= roster.len() * events.len() <= usize::MAX,
    ensures
        b1.seed == b2.seed,
        b1.cells@.len() == b2.cells@.len(),
        forall|c: int| 0 <= c < b1.cells@.len() ==> same_cell(#[trigger] b1.cells@[c], b2.cells@[c]),
{
    lemma_pool_len(roster, events);
    crate::rng::lemma_shuffle_is_permutation(pool_spec(roster, events), board_seed(room_code, player_id) | 1);
    let sh = shuffled_pool(room_code, player_id, roster, events);
    let t = dealt_count(sh.len() as int);
    assert forall|c: int| 0 <= c < b1.cells@.len() implies same_cell(b1.cells@[c], b2.cells@[c]) by {
        if c != 12 {
            let k = if c < 12 { c } else { c - 1 };
            assert(dealt_position(k) == c);
            assert(is_dealt_cell(b1.cells@[dealt_position(k)], sh[k]));
            assert(is_dealt_cell(b2.cells@[dealt_position(k)], sh[k]));
        }
    }
}

/// Law: every dealt (non-free) cell of a board holds a (roster player, event
/// type) pair of the room, and no pair is dealt more often than the pool holds it.
pub proof fn lemma_dealt_cells_from_pool(
    board: Board,
    room_code: Seq<char>,
    player_id: Seq<char>,
    roster: Seq<RosterPlayer>,
    events: Seq<String>,
)
    requires
        dealt_board(board, room_code, player_id, roster, events),
        roster.len() * events.len() <= usize::MAX,
    ensures
        ({
            let sh = shuffled_pool(room_code, player_id, roster, events);
            let t = dealt_count(sh.len() as int);
            &&& forall|k: int| 0 <= k < t ==> pool_spec(roster, events).contains(#[trigger] sh[k])
            &&& sh.take(t).to_multiset().subset_of(pool_spec(roster, events).to_multiset())
        }),
{
    broadcast use {
        vstd::seq_lib::to_multiset_contains,
        vstd::multiset::group_multiset_properties,
    };
    let pool = pool_spec(roster, events);
    lemma_pool_len(roster, events);
    let seed = board_seed(room_code, player_id) | 1;
    crate::rng::lemma_shuffle_is_permutation(pool, seed);
    let sh = shuffled_pool(room_code, player_id, roster, events);
    let t = dealt_count(sh.len() as int);
    assert forall|k: int| 0 <= k < t implies pool.contains(#[trigger] sh[k]) by {
        assert(sh.contains(sh[k]));
        assert(sh.to_multiset().count(sh[k]) > 0);
    }
    vstd::seq_lib::lemma_multiset_commutative(sh.take(t), sh.skip(t));
    assert(sh.take(t) + sh.skip(t) =~= sh);
}

} // verus!
