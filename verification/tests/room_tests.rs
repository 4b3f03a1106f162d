use std::collections::HashSet;

use bingo::board::{build_board, FREE_CELL};
use bingo::events::{apply_event, validate_event, CallError};
use bingo::models::{find_player_index, Board, Cell, Player, RoomMeta, RoomState, RosterPlayer, Status, Winner};
use bingo::rooms::{
    add_player, check_join, default_event_types, new_room, next_code_step, room_info, CodeStep, JoinError,
};
use bingo::state::poll_view;

fn roster(names: &[&str]) -> Vec<RosterPlayer> {
    names
        .iter()
        .enumerate()
        .map(|(i, n)| RosterPlayer { id: i as u32 + 1, name: n.to_string(), position: "P".to_string() })
        .collect()
}

fn events(names: &[&str]) -> Vec<String> {
    names.iter().map(|s| s.to_string()).collect()
}

fn pairs_of(board: &Board) -> Vec<(String, String)> {
    board
        .cells
        .iter()
        .filter(|c| !c.is_free)
        .map(|c| (c.player_name.clone(), c.event_type.clone()))
        .collect()
}

#[test]
fn board_has_free_centre_and_24_distinct_pairs() {
    let r = roster(&["Ann", "Bob", "Cy", "Di"]);
    let e = default_event_types();
    let board = build_board("ROOM1", "player-1", &r, &e);
    assert_eq!(board.cells.len(), 25);
    let free = &board.cells[FREE_CELL];
    assert!(free.is_free);
    assert_eq!(free.player_name, "");
    assert_eq!(free.event_type, "FREE");
    assert_eq!(board.cells.iter().filter(|c| c.is_free).count(), 1);
    let pairs = pairs_of(&board);
    assert_eq!(pairs.len(), 24);
    let distinct: HashSet<(String, String)> = pairs.iter().cloned().collect();
    assert_eq!(distinct.len(), 24);
    for (p, ev) in &pairs {
        assert!(r.iter().any(|x| &x.name == p));
        assert!(e.contains(ev));
    }
}

#[test]
fn board_seed_hashes_code_and_player() {
    let r = roster(&["Ann", "Bob"]);
    let e = default_event_types();
    let board = build_board("ROOM1", "player-1", &r, &e);
    assert_eq!(board.seed, bingo::rng::hash_seed("ROOM1|player-1"));
}

#[test]
fn same_inputs_deal_the_same_board() {
    let r = roster(&["Ann", "Bob", "Cy"]);
    let e = default_event_types();
    let a = build_board("ROOM1", "p", &r, &e);
    let b = build_board("ROOM1", "p", &r, &e);
    assert_eq!(pairs_of(&a), pairs_of(&b));
    let c = build_board("ROOM1", "q", &r, &e);
    assert_ne!(a.seed, c.seed);
}

#[test]
fn small_pool_deals_every_pair() {
    // 12 pairs: all dealt, free cell last at index 12.
    let r = roster(&["Ann", "Bob", "Cy", "Di"]);
    let e = events(&["single", "double", "walk"]);
    let board = build_board("R", "p", &r, &e);
    assert_eq!(board.cells.len(), 13);
    assert!(board.cells[12].is_free);
    assert_eq!(pairs_of(&board).into_iter().collect::<HashSet<_>>().len(), 12);
}

#[test]
fn default_event_types_list() {
    let e = default_event_types();
    assert_eq!(e.len(), 15);
    assert_eq!(e[0], "single");
    assert_eq!(e[3], "home run");
    assert_eq!(e[14], "fly out");
}

fn sample_room() -> (RoomMeta, RoomState) {
    new_room(
        "ABCDE".to_string(),
        "Host".to_string(),
        114,
        roster(&["Ann", "Bob", "Cy"]),
        "host-token".to_string(),
        "host-id".to_string(),
        "host-player-token".to_string(),
        1000,
    )
}

#[test]
fn new_room_starts_waiting_with_the_host() {
    let (meta, state) = sample_room();
    assert_eq!(meta.code, "ABCDE");
    assert_eq!(meta.host_name, "Host");
    assert_eq!(meta.host_token, "host-token");
    assert_eq!(meta.team_id, 114);
    assert_eq!(meta.event_types, default_event_types());
    assert_eq!(meta.created_at, 1000);
    assert_eq!(state.version, 1);
    assert_eq!(state.status, Status::Waiting);
    assert!(state.events.is_empty());
    assert!(state.winners.is_empty());
    assert_eq!(state.players.len(), 1);
    let host = &state.players[0];
    assert_eq!(host.id, "host-id");
    assert_eq!(host.name, "Host");
    assert_eq!(host.token, "host-player-token");
    assert!(host.is_host);
    assert_eq!(host.connected_at, 1000);
    assert_eq!(host.marked_cells, [12usize].into_iter().collect::<HashSet<usize>>());
    assert_eq!(host.board.seed, bingo::rng::hash_seed("ABCDE|host-id"));
}

#[test]
fn join_rules() {
    let (meta, mut state) = sample_room();
    assert_eq!(check_join(&state, "Alice"), Ok(()));
    let idx = add_player(&mut state, &meta, "ABCDE", "p2".to_string(), "Alice".to_string(), "t2".to_string(), 2000);
    assert_eq!(idx, 1);
    assert_eq!(state.version, 2);
    assert_eq!(state.players[1].name, "Alice");
    assert!(!state.players[1].is_host);
    assert_eq!(state.players[1].marked_cells, [12usize].into_iter().collect::<HashSet<usize>>());
    // names are compared ignoring case
    assert_eq!(check_join(&state, "alice"), Err(JoinError::NameTaken));
    assert_eq!(check_join(&state, "HOST"), Err(JoinError::NameTaken));
    state.status = Status::Finished;
    assert_eq!(check_join(&state, "Zed"), Err(JoinError::Finished));
}

#[test]
fn add_player_with_existing_id_replaces_that_player() {
    let (meta, mut state) = sample_room();
    add_player(&mut state, &meta, "ABCDE", "p2".to_string(), "Alice".to_string(), "t2".to_string(), 2000);
    let idx = add_player(&mut state, &meta, "ABCDE", "p2".to_string(), "Bea".to_string(), "t3".to_string(), 3000);
    assert_eq!(idx, 1);
    assert_eq!(state.players.len(), 2);
    assert_eq!(state.players[1].name, "Bea");
    assert_eq!(state.version, 3);
}

#[test]
fn validate_event_checks_type_then_player() {
    let (meta, _) = sample_room();
    assert_eq!(validate_event(&meta, "ann", "HOME RUN"), Ok(()));
    assert_eq!(validate_event(&meta, "Zed", "bunt"), Err(CallError::UnknownEventType));
    assert_eq!(validate_event(&meta, "Zed", "single"), Err(CallError::UnknownPlayerName));
}

fn cell(p: &str, e: &str) -> Cell {
    Cell { player_name: p.to_string(), event_type: e.to_string(), is_free: false }
}

fn player_with(id: &str, name: &str, cells: Vec<Cell>, marked: &[usize]) -> Player {
    Player {
        id: id.to_string(),
        name: name.to_string(),
        token: "t".to_string(),
        board: Board { cells, seed: 0 },
        marked_cells: marked.iter().copied().collect(),
        is_host: false,
        connected_at: 0,
    }
}

fn row_board() -> Vec<Cell> {
    // Row 0 is four cells of ("Ann", "walk") then ("Bob", "single").
    let mut cells = Vec::new();
    for i in 0..25 {
        if i == 12 {
            cells.push(Cell { player_name: String::new(), event_type: "FREE".to_string(), is_free: true });
        } else if i < 4 {
            cells.push(cell("Ann", "walk"));
        } else if i == 4 {
            cells.push(cell("Bob", "single"));
        } else {
            cells.push(cell("Cy", "double"));
        }
    }
    cells
}

#[test]
fn event_marks_matching_cells_ignoring_case() {
    let mut state = RoomState {
        version: 5,
        status: Status::Waiting,
        players: vec![player_with("a", "A", row_board(), &[12]), player_with("b", "B", row_board(), &[12, 0])],
        events: vec![],
        winners: vec![],
    };
    let out = apply_event(&mut state, "ANN".to_string(), "Walk".to_string(), 77);
    assert_eq!(out.event_index, 0);
    assert_eq!(out.version, 6);
    assert_eq!(state.version, 6);
    assert_eq!(state.status, Status::Active);
    assert_eq!(state.events.len(), 1);
    assert_eq!(state.events[0].index, 0);
    assert_eq!(state.events[0].player_name, "ANN");
    assert_eq!(state.events[0].event_type, "Walk");
    assert_eq!(state.events[0].timestamp, 77);
    assert!(!state.events[0].undone);
    assert_eq!(out.marks.len(), 2);
    assert_eq!(out.marks[0].player_id, "a");
    assert_eq!(out.marks[0].cells, vec![0, 1, 2, 3]);
    assert_eq!(out.marks[1].player_id, "b");
    assert_eq!(out.marks[1].cells, vec![1, 2, 3]);
    assert_eq!(state.players[0].marked_cells, [0, 1, 2, 3, 12].into_iter().collect::<HashSet<usize>>());
    assert!(state.winners.is_empty());
}

#[test]
fn event_that_matches_nothing_still_counts() {
    let mut state = RoomState {
        version: 1,
        status: Status::Active,
        players: vec![player_with("a", "A", row_board(), &[12])],
        events: vec![],
        winners: vec![],
    };
    let out = apply_event(&mut state, "Zed".to_string(), "walk".to_string(), 1);
    assert!(out.marks.is_empty());
    assert_eq!(state.status, Status::Active);
    assert_eq!(state.version, 2);
    assert_eq!(state.events.len(), 1);
}

#[test]
fn event_completing_a_line_makes_a_winner_and_finishes() {
    let mut state = RoomState {
        version: 1,
        status: Status::Active,
        players: vec![player_with("a", "A", row_board(), &[0, 1, 2, 3, 12]), player_with("b", "B", row_board(), &[12])],
        events: vec![],
        winners: vec![],
    };
    let out = apply_event(&mut state, "bob".to_string(), "SINGLE".to_string(), 9);
    assert_eq!(out.marks.len(), 2);
    assert_eq!(state.winners.len(), 1);
    let w = &state.winners[0];
    assert_eq!(w.player_id, "a");
    assert_eq!(w.player_name, "A");
    assert_eq!(w.line, [0, 1, 2, 3, 4]);
    assert_eq!(w.at_event_index, 0);
    assert_eq!(state.status, Status::Finished);
}

#[test]
fn earlier_winners_are_not_added_again() {
    let mut state = RoomState {
        version: 1,
        status: Status::Finished,
        players: vec![player_with("a", "A", row_board(), &[0, 1, 2, 3, 4, 12])],
        events: vec![],
        winners: vec![Winner { player_id: "a".to_string(), player_name: "A".to_string(), line: [0, 1, 2, 3, 4], at_event_index: 0 }],
    };
    apply_event(&mut state, "Cy".to_string(), "double".to_string(), 3);
    assert_eq!(state.winners.len(), 1);
    assert_eq!(state.status, Status::Finished);
}

#[test]
fn poll_view_skips_current_version() {
    let (_, state) = sample_room();
    assert!(poll_view(&state, 1, None).is_none());
    let v = poll_view(&state, 0, Some("host-id")).unwrap();
    assert_eq!(v.version, 1);
    assert_eq!(v.status, Status::Waiting);
    assert_eq!(v.players.len(), 1);
    assert_eq!(v.players[0].id, "host-id");
    assert_eq!(v.players[0].name, "Host");
    assert!(v.players[0].is_host);
    assert_eq!(v.players[0].marked_count, 1);
    assert_eq!(v.you, Some(0));
    assert_eq!(poll_view(&state, 0, Some("nobody")).unwrap().you, None);
    assert_eq!(poll_view(&state, 0, None).unwrap().you, None);
}

#[test]
fn find_player_index_finds_by_id() {
    let (_, state) = sample_room();
    assert_eq!(find_player_index(&state.players, "host-id"), Some(0));
    assert_eq!(find_player_index(&state.players, "x"), None);
}

#[test]
fn room_info_describes_the_room() {
    let (meta, state) = sample_room();
    let info = room_info(&meta, &state);
    assert_eq!(info.host_name, "Host");
    assert_eq!(info.player_count, 1);
    assert_eq!(info.status, Status::Waiting);
    assert_eq!(info.team_name, "Guardians");
    assert_eq!(info.event_types, meta.event_types);
}

#[test]
fn code_search_steps() {
    assert_eq!(next_code_step(1, false), CodeStep::Accept);
    assert_eq!(next_code_step(1, true), CodeStep::Retry);
    assert_eq!(next_code_step(4, true), CodeStep::Retry);
    assert_eq!(next_code_step(5, true), CodeStep::GiveUp);
    assert_eq!(next_code_step(5, false), CodeStep::Accept);
}
