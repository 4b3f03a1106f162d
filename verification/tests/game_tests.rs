use std::collections::HashSet;

use bingo::bingo::BINGO_LINES;
use bingo::events::{apply_event, validate_event};
use bingo::models::{RoomState, RosterPlayer, Status};
use bingo::rooms::{add_player, check_join, new_room};

fn rank(s: Status) -> u8 {
    match s {
        Status::Waiting => 0,
        Status::Active => 1,
        Status::Finished => 2,
    }
}

fn assert_consistent(s: &RoomState) {
    let ids: HashSet<&String> = s.players.iter().map(|p| &p.id).collect();
    assert_eq!(ids.len(), s.players.len());
    let names: HashSet<String> = s.players.iter().map(|p| p.name.to_lowercase()).collect();
    assert_eq!(names.len(), s.players.len());
    for p in &s.players {
        assert!(p.marked_cells.contains(&12));
        assert!(p.marked_cells.iter().all(|&c| c < p.board.cells.len()));
    }
    assert_eq!(s.status == Status::Waiting, s.events.is_empty());
    assert_eq!(s.status == Status::Finished, !s.winners.is_empty());
    let winner_ids: HashSet<&String> = s.winners.iter().map(|w| &w.player_id).collect();
    assert_eq!(winner_ids.len(), s.winners.len());
    for w in &s.winners {
        assert!(w.at_event_index < s.events.len());
        assert!(BINGO_LINES.contains(&w.line));
        let p = s.players.iter().find(|p| p.id == w.player_id).unwrap();
        for c in w.line {
            assert!(p.marked_cells.contains(&c));
        }
    }
}

#[test]
fn a_whole_game_keeps_the_room_consistent() {
    let roster: Vec<RosterPlayer> = ["Ann", "Bob", "Cy"]
        .iter()
        .enumerate()
        .map(|(i, n)| RosterPlayer { id: i as u32, name: n.to_string(), position: "P".to_string() })
        .collect();
    let (meta, mut state) = new_room(
        "GAME1".to_string(),
        "Host".to_string(),
        114,
        roster,
        "ht".to_string(),
        "h".to_string(),
        "hpt".to_string(),
        0,
    );
    assert_consistent(&state);
    for (id, name) in [("p1", "Alice"), ("p2", "Bea")] {
        assert_eq!(check_join(&state, name), Ok(()));
        add_player(&mut state, &meta, "GAME1", id.to_string(), name.to_string(), "t".to_string(), 1);
        assert_consistent(&state);
    }
    let mut t = 2;
    'outer: for p in ["Ann", "Bob", "Cy"] {
        for e in meta.event_types.clone() {
            assert_eq!(validate_event(&meta, p, &e), Ok(()));
            let before_status = state.status;
            let before_marks: Vec<HashSet<usize>> = state.players.iter().map(|p| p.marked_cells.clone()).collect();
            let version = state.version;
            apply_event(&mut state, p.to_string(), e.clone(), t);
            t += 1;
            assert_eq!(state.version, version + 1);
            assert!(rank(state.status) >= rank(before_status));
            for (old, p) in before_marks.iter().zip(state.players.iter()) {
                assert!(old.is_subset(&p.marked_cells));
            }
            assert_consistent(&state);
            if state.status == Status::Finished {
                break 'outer;
            }
        }
    }
    // Every pair has been called or someone won long before: with 45 pairs and
    // 24 cells a bingo is certain by the end.
    assert_eq!(state.status, Status::Finished);
    assert!(check_join(&state, "Late").is_err());
}
