use mplus_tracker::db::Database;
use mplus_tracker::handlers::LeaderboardEntry;
use mplus_tracker::leaderboard::{rank, PlayerTotal, UntrackedTotal};
use mplus_tracker::models::Player;

fn player(id: &str, character_ids: Vec<i64>, count: i64) -> PlayerTotal {
    PlayerTotal {
        player: Player { id: id.to_string(), label: id.to_uppercase() },
        character_ids,
        count,
    }
}

fn untracked(name: &str, count: i64) -> UntrackedTotal {
    UntrackedTotal { name: name.to_string(), count }
}

fn entry(name: &str, count: i64) -> LeaderboardEntry {
    LeaderboardEntry {
        display_name: name.to_string(),
        player_id: None,
        count,
        is_player: false,
    }
}

fn show(entries: &[LeaderboardEntry]) -> Vec<(&str, Option<&str>, i64, bool)> {
    entries
        .iter()
        .map(|e| (e.display_name.as_str(), e.player_id.as_deref(), e.count, e.is_player))
        .collect()
}

#[test]
fn players_and_others_by_their_runs() {
    let players = vec![
        player("ash", vec![1, 2], 5),
        player("idle", vec![3], 0),
        player("none", vec![], 4),
        player("zoe", vec![4], 9),
    ];
    let others = vec![untracked("Alt", 9), untracked("Bob", 5), untracked("Cy", 1)];
    let board = Database::get_leaderboard_all(&players, &others);
    assert_eq!(
        show(&board),
        vec![
            ("ZOE", Some("zoe"), 9, true),
            ("Alt", None, 9, false),
            ("ASH", Some("ash"), 5, true),
            ("Bob", None, 5, false),
            ("Cy", None, 1, false),
        ]
    );
}

#[test]
fn empty_leaderboard() {
    assert!(Database::get_leaderboard_all(&[], &[]).is_empty());
    assert!(Database::get_leaderboard_all(&[player("idle", vec![3], 0)], &[]).is_empty());
}

#[test]
fn equal_counts_keep_their_order() {
    let entries = vec![entry("a", 1), entry("b", 2), entry("c", 1), entry("d", 2), entry("e", 1)];
    let ranked = rank(entries);
    let names: Vec<&str> = ranked.iter().map(|e| e.display_name.as_str()).collect();
    assert_eq!(names, vec!["b", "d", "a", "c", "e"]);
}

#[test]
fn ranking_agrees_with_a_stable_sort() {
    let mut state: u64 = 17;
    let mut entries = vec![];
    for i in 0..200 {
        state = state.wrapping_mul(6364136223846793005).wrapping_add(1442695040888963407);
        entries.push(entry(&format!("n{}", i), (state >> 60) as i64 - 8));
    }
    let mut expected = entries.clone();
    expected.sort_by(|a, b| b.count.cmp(&a.count));
    assert_eq!(show(&rank(entries)), show(&expected));
}
