//! The leaderboard: players with the runs of all their characters, and the characters
//! that belong to no player, ranked by their number of runs.

use crate::db::Database;
use crate::handlers::LeaderboardEntry;
use crate::models::Player;
use vstd::prelude::*;

verus! {

/// A player with their characters and the number of timed runs of all of them.
#[derive(Debug)]
pub struct PlayerTotal {
    pub player: Player,
    pub character_ids: Vec<i64>,
    pub count: i64,
}

/// A character of no player with the number of its timed runs.
#[derive(Debug)]
pub struct UntrackedTotal {
    pub name: String,
    pub count: i64,
}

/// A player is on the leaderboard who has characters and runs.
pub open spec fn is_ranked(total: PlayerTotal) -> bool {
    total.character_ids@.len() > 0 && total.count != 0
}

pub open spec fn player_entry(total: PlayerTotal) -> LeaderboardEntry {
    LeaderboardEntry {
        display_name: total.player.label,
        player_id: Some(total.player.id),
        count: total.count,
        is_player: true,
    }
}

pub open spec fn untracked_entry(total: UntrackedTotal) -> LeaderboardEntry {
    LeaderboardEntry {
        display_name: total.name,
        player_id: None,
        count: total.count,
        is_player: false,
    }
}

/// The players' entries, in order.
pub open spec fn player_entries(players: Seq<PlayerTotal>) -> Seq<LeaderboardEntry>
    decreases players.len(),
{
    if players.len() == 0 {
        Seq::empty()
    } else if is_ranked(players.last()) {
        player_entries(players.drop_last()).push(player_entry(players.last()))
    } else {
        player_entries(players.drop_last())
    }
}

/// All entries before they are ranked.
pub open spec fn unranked(players: Seq<PlayerTotal>, untracked: Seq<UntrackedTotal>) -> Seq<
    LeaderboardEntry,
> {
    player_entries(players) + untracked.map_values(|total: UntrackedTotal| untracked_entry(total))
}

/// The entries with `count` runs, in order.
pub open spec fn with_count(entries: Seq<LeaderboardEntry>, count: i64) -> Seq<LeaderboardEntry> {
    entries.filter(|entry: LeaderboardEntry| entry.count == count)
}

/// No entry comes after one with fewer runs.
pub open spec fn is_descending(entries: Seq<LeaderboardEntry>) -> bool {
    forall|i: int, j: int|
        0 <= i <= j < entries.len() ==> (#[trigger] entries[i]).count >= (
        #[trigger] entries[j]).count
}

/// `ranked` holds the entries by descending number of runs; those with the same number
/// keep their order.
pub open spec fn is_ranking(ranked: Seq<LeaderboardEntry>, entries: Seq<LeaderboardEntry>) -> bool {
    &&& is_descending(ranked)
    &&& forall|count: i64| #[trigger] with_count(ranked, count) == with_count(entries, count)
}

proof fn lemma_with_count_push(entries: Seq<LeaderboardEntry>, entry: LeaderboardEntry, count: i64)
    ensures
        with_count(entries.push(entry), count) == if entry.count == count {
            with_count(entries, count).push(entry)
        } else {
            with_count(entries, count)
        },
{
    reveal(Seq::filter);
    assert(entries.push(entry).drop_last() == entries);
}

proof fn lemma_with_count_none(entries: Seq<LeaderboardEntry>, count: i64)
    requires
        forall|i: int| 0 <= i < entries.len() ==> (#[trigger] entries[i]).count != count,
    ensures
        with_count(entries, count) == Seq::<LeaderboardEntry>::empty(),
    decreases entries.len(),
{
    reveal(Seq::filter);
    if entries.len() > 0 {
        lemma_with_count_none(entries.drop_last(), count);
    }
}

/// An entry that goes in behind all entries with as many runs comes last among these.
proof fn lemma_with_count_insert(
    ranked: Seq<LeaderboardEntry>,
    at: int,
    entry: LeaderboardEntry,
    count: i64,
)
    requires
        0 <= at <= ranked.len(),
        forall|i: int| at <= i < ranked.len() ==> (#[trigger] ranked[i]).count < entry.count,
    ensures
        with_count(ranked.insert(at, entry), count) == with_count(ranked.push(entry), count),
{
    let before = ranked.take(at);
    let after = ranked.skip(at);
    let same = |e: LeaderboardEntry| e.count == count;
    assert(ranked == before + after);
    assert(ranked.insert(at, entry) == before.push(entry) + after);
    Seq::filter_distributes_over_add(before, after, same);
    Seq::filter_distributes_over_add(before.push(entry), after, same);
    lemma_with_count_push(before, entry, count);
    lemma_with_count_push(ranked, entry, count);
    if entry.count == count {
        assert forall|i: int| 0 <= i < after.len() implies (#[trigger] after[i]).count != count by {
            assert(after[i] == ranked[at + i]);
        }
        lemma_with_count_none(after, count);
        assert(with_count(before, count).push(entry) + Seq::<LeaderboardEntry>::empty()
            == with_count(before, count).push(entry));
        assert(with_count(before, count) + Seq::<LeaderboardEntry>::empty() == with_count(
            before,
            count,
        ));
    }
}

/// Puts an entry behind all those with as many runs or more.
fn insert_ranked(ranked: &mut Vec<LeaderboardEntry>, entry: LeaderboardEntry)
    requires
        is_descending(old(ranked)@),
    ensures
        is_descending(final(ranked)@),
        forall|count: i64| #[trigger]
            with_count(final(ranked)@, count) == with_count(old(ranked)@.push(entry), count),
        final(ranked)@.to_multiset() == old(ranked)@.to_multiset().insert(entry),
{
    let ghost before = ranked@;
    let mut at: usize = ranked.len();
    while at > 0 && ranked[at - 1].count < entry.count
        invariant
            at <= ranked@.len(),
            ranked@ == before,
            is_descending(before),
            forall|i: int| at <= i < before.len() ==> (#[trigger] before[i]).count < entry.count,
        decreases at,
    {
        at = at - 1;
    }
    ranked.insert(at, entry);
    proof {
        assert(ranked@ == before.insert(at as int, entry));
        assert forall|count: i64| #[trigger]
            with_count(ranked@, count) == with_count(before.push(entry), count) by {
            lemma_with_count_insert(before, at as int, entry, count);
        }
        vstd::seq_lib::to_multiset_insert(before, at as int, entry);
        assert forall|i: int, j: int| 0 <= i <= j < ranked@.len() implies (
        #[trigger] ranked@[i]).count >= (#[trigger] ranked@[j]).count by {
            let i0 = if i < at {
                i
            } else {
                i - 1
            };
            let j0 = if j < at {
                j
            } else {
                j - 1
            };
            assert(i < at ==> ranked@[i] == before[i]);
            assert(i > at ==> ranked@[i] == before[i - 1]);
            assert(j < at ==> ranked@[j] == before[j]);
            assert(j > at ==> ranked@[j] == before[j - 1]);
            if at > 0 {
                assert(before[at - 1].count >= entry.count);
            }
        }
    }
}

/// Ranks entries by descending number of runs. Entries with the same number keep their
/// order.
pub fn rank(entries: Vec<LeaderboardEntry>) -> (r: Vec<LeaderboardEntry>)
    ensures
        is_ranking(r@, entries@),
        r@.to_multiset() == entries@.to_multiset(),
{
    let mut ranked: Vec<LeaderboardEntry> = Vec::new();
    let ghost all = entries@;
    let mut done: usize = 0;
    assert(all.take(0) == ranked@);
    while done < entries.len()
        invariant
            done <= entries@.len(),
            all == entries@,
            is_ranking(ranked@, all.take(done as int)),
            ranked@.to_multiset() == all.take(done as int).to_multiset(),
        decreases entries@.len() - done,
    {
        let ghost before = ranked@;
        let next = &entries[done];
        let entry = LeaderboardEntry {
            display_name: next.display_name.clone(),
            player_id: match &next.player_id {
                Some(id) => Some(id.clone()),
                None => None,
            },
            count: next.count,
            is_player: next.is_player,
        };
        insert_ranked(&mut ranked, entry);
        proof {
            assert(entry == all[done as int]);
            assert(all.take(done as int + 1) == all.take(done as int).push(entry));
            all.take(done as int).to_multiset_ensures();
            assert forall|count: i64| #[trigger]
                with_count(ranked@, count) == with_count(all.take(done as int + 1), count) by {
                lemma_with_count_push(before, entry, count);
                lemma_with_count_push(all.take(done as int), entry, count);
                assert(with_count(before, count) == with_count(all.take(done as int), count));
            }
        }
        done = done + 1;
    }
    assert(all.take(done as int) == all);
    ranked
}

impl Database {
    /// The leaderboard of some players and of the characters that belong to none. Players
    /// without characters or without runs are left out.
    pub fn get_leaderboard_all(players: &[PlayerTotal], untracked: &[UntrackedTotal]) -> (r:
        Vec<LeaderboardEntry>)
        ensures
            is_ranking(r@, unranked(players@, untracked@)),
            r@.to_multiset() == unranked(players@, untracked@).to_multiset(),
    {
        let mut entries: Vec<LeaderboardEntry> = Vec::new();
        let mut i: usize = 0;
        while i < players.len()
            invariant
                i <= players@.len(),
                entries@ == player_entries(players@.take(i as int)),
            decreases players@.len() - i,
        {
            let total = &players[i];
            assert(players@.take(i as int + 1).drop_last() == players@.take(i as int));
            if total.character_ids.len() > 0 && total.count != 0 {
                entries.push(
                    LeaderboardEntry {
                        display_name: total.player.label.clone(),
                        player_id: Some(total.player.id.clone()),
                        count: total.count,
                        is_player: true,
                    },
                );
            }
            i = i + 1;
        }
        assert(players@.take(i as int) == players@);
        let mut j: usize = 0;
        while j < untracked.len()
            invariant
                j <= untracked@.len(),
                entries@ == unranked(players@, untracked@.take(j as int)),
            decreases untracked@.len() - j,
        {
            let total = &untracked[j];
            entries.push(
                LeaderboardEntry {
                    display_name: total.name.clone(),
                    player_id: None,
                    count: total.count,
                    is_player: false,
                },
            );
            j = j + 1;
            assert(entries@ == unranked(players@, untracked@.take(j as int)));
        }
        assert(untracked@.take(j as int) == untracked@);
        rank(entries)
    }
}

proof fn lemma_with_count_last(entries: Seq<LeaderboardEntry>, count: i64)
    requires
        entries.len() > 0,
    ensures
        with_count(entries, count) == if entries.last().count == count {
            with_count(entries.drop_last(), count).push(entries.last())
        } else {
            with_count(entries.drop_last(), count)
        },
{
    assert(entries == entries.drop_last().push(entries.last()));
    lemma_with_count_push(entries.drop_last(), entries.last(), count);
}

proof fn lemma_least_count(a: Seq<LeaderboardEntry>, b: Seq<LeaderboardEntry>)
    requires
        a.len() > 0,
        is_descending(b),
        with_count(a, a.last().count) == with_count(b, a.last().count),
    ensures
        b.len() > 0,
        b.last().count <= a.last().count,
{
    let count = a.last().count;
    lemma_with_count_last(a, count);
    if forall|i: int| 0 <= i < b.len() ==> (#[trigger] b[i]).count != count {
        lemma_with_count_none(b, count);
        assert(with_count(a, count).len() > 0);
    }
    let i = choose|i: int| 0 <= i < b.len() && (#[trigger] b[i]).count == count;
    assert(b[i].count >= b[b.len() - 1].count);
}

/// There is one ranking of given entries.
pub proof fn ranking_is_unique(
    entries: Seq<LeaderboardEntry>,
    a: Seq<LeaderboardEntry>,
    b: Seq<LeaderboardEntry>,
)
    requires
        is_ranking(a, entries),
        is_ranking(b, entries),
    ensures
        a == b,
{
    assert forall|count: i64| #[trigger] with_count(a, count) == with_count(b, count) by {
        assert(with_count(b, count) == with_count(entries, count));
    }
    lemma_same_counts_same_ranking(a, b);
}

proof fn lemma_same_counts_same_ranking(a: Seq<LeaderboardEntry>, b: Seq<LeaderboardEntry>)
    requires
        is_descending(a),
        is_descending(b),
        forall|count: i64| #[trigger] with_count(a, count) == with_count(b, count),
    ensures
        a == b,
    decreases a.len(),
{
    if a.len() == 0 {
        if b.len() > 0 {
            assert(with_count(a, b.last().count) == with_count(b, b.last().count));
            lemma_least_count(b, a);
        }
    } else {
        lemma_least_count(a, b);
        assert(with_count(a, b.last().count) == with_count(b, b.last().count));
        lemma_least_count(b, a);
        let last = a.last().count;
        lemma_with_count_last(a, last);
        lemma_with_count_last(b, last);
        assert(with_count(a, last).last() == with_count(b, last).last());
        assert forall|count: i64| #[trigger]
            with_count(a.drop_last(), count) == with_count(b.drop_last(), count) by {
            lemma_with_count_last(a, count);
            lemma_with_count_last(b, count);
            assert(with_count(a, count) == with_count(b, count));
            if count == last {
                assert(with_count(a.drop_last(), count) == with_count(a, count).drop_last());
                assert(with_count(b.drop_last(), count) == with_count(b, count).drop_last());
            }
        }
        lemma_same_counts_same_ranking(a.drop_last(), b.drop_last());
        assert(a == a.drop_last().push(a.last()));
        assert(b == b.drop_last().push(b.last()));
    }
}

proof fn lemma_player_entries_have_runs(players: Seq<PlayerTotal>)
    ensures
        forall|i: int|
            0 <= i < player_entries(players).len() ==> (#[trigger] player_entries(
                players,
            )[i]).count != 0,
    decreases players.len(),
{
    if players.len() > 0 {
        lemma_player_entries_have_runs(players.drop_last());
    }
}

proof fn lemma_with_count_not_players(entries: Seq<LeaderboardEntry>, count: i64)
    requires
        forall|i: int| 0 <= i < entries.len() ==> !(#[trigger] entries[i]).is_player,
    ensures
        forall|i: int|
            0 <= i < with_count(entries, count).len() ==> !(#[trigger] with_count(
                entries,
                count,
            )[i]).is_player,
    decreases entries.len(),
{
    if entries.len() > 0 {
        lemma_with_count_not_players(entries.drop_last(), count);
        lemma_with_count_last(entries, count);
    } else {
        lemma_with_count_none(entries, count);
    }
}

/// No player is on the leaderboard without runs.
pub proof fn ranked_players_have_runs(
    players: Seq<PlayerTotal>,
    untracked: Seq<UntrackedTotal>,
    ranked: Seq<LeaderboardEntry>,
    i: int,
)
    requires
        is_ranking(ranked, unranked(players, untracked)),
        0 <= i < ranked.len(),
        ranked[i].is_player,
    ensures
        ranked[i].count != 0,
{
    if ranked[i].count == 0 {
        let of_players = player_entries(players);
        let of_others = untracked.map_values(|total: UntrackedTotal| untracked_entry(total));
        let none = |entry: LeaderboardEntry| entry.count == 0i64;
        lemma_player_entries_have_runs(players);
        lemma_with_count_none(of_players, 0);
        lemma_with_count_not_players(of_others, 0);
        Seq::filter_distributes_over_add(of_players, of_others, none);
        ranked.lemma_filter_contains(none, i);
        assert(with_count(ranked, 0) == with_count(of_others, 0));
        assert(with_count(ranked, 0).contains(ranked[i]));
    }
}

proof fn lemma_player_entries_hold(players: Seq<PlayerTotal>, i: int)
    requires
        0 <= i < players.len(),
        players[i].character_ids@.len() > 0,
        players[i].count != 0,
    ensures
        exists|k: int|
            0 <= k < player_entries(players).len() && (#[trigger] player_entries(players)[k])
                == player_entry(players[i]),
    decreases players.len(),
{
    if i == players.len() - 1 {
        let k = player_entries(players).len() - 1;
        assert(player_entries(players)[k] == player_entry(players[i]));
    } else {
        lemma_player_entries_hold(players.drop_last(), i);
        let before = player_entries(players.drop_last());
        let k = choose|k: int|
            0 <= k < before.len() && (#[trigger] before[k]) == player_entry(players[i]);
        assert(player_entries(players)[k] == player_entry(players[i]));
    }
}

proof fn lemma_player_entries_come_from(players: Seq<PlayerTotal>, k: int)
    requires
        0 <= k < player_entries(players).len(),
    ensures
        exists|i: int|
            0 <= i < players.len() && is_ranked(players[i]) && player_entries(players)[k]
                == #[trigger] player_entry(players[i]),
    decreases players.len(),
{
    let before = player_entries(players.drop_last());
    if k < before.len() {
        lemma_player_entries_come_from(players.drop_last(), k);
        let i = choose|i: int|
            0 <= i < players.drop_last().len() && is_ranked(players.drop_last()[i]) && before[k]
                == #[trigger] player_entry(players.drop_last()[i]);
        assert(player_entries(players)[k] == player_entry(players[i]));
    } else {
        assert(player_entries(players)[k] == player_entry(players[players.len() - 1]));
    }
}

proof fn lemma_ranked_entry(
    ranked: Seq<LeaderboardEntry>,
    entries: Seq<LeaderboardEntry>,
    k: int,
) -> (at: int)
    requires
        is_ranking(ranked, entries),
        0 <= k < entries.len(),
    ensures
        0 <= at < ranked.len(),
        ranked[at] == entries[k],
{
    let count = entries[k].count;
    let same = |entry: LeaderboardEntry| entry.count == count;
    entries.lemma_filter_contains(same, k);
    assert(with_count(entries, count).contains(entries[k]));
    assert(with_count(ranked, count).contains(entries[k]));
    let a = choose|a: int|
        0 <= a < with_count(ranked, count).len() && with_count(ranked, count)[a] == entries[k];
    lemma_filter_source(ranked, count, a)
}

proof fn lemma_filter_source(entries: Seq<LeaderboardEntry>, count: i64, a: int) -> (at: int)
    requires
        0 <= a < with_count(entries, count).len(),
    ensures
        0 <= at < entries.len(),
        entries[at] == with_count(entries, count)[a],
        entries[at].count == count,
    decreases entries.len(),
{
    if entries.len() == 0 {
        lemma_with_count_none(entries, count);
        0
    } else {
        lemma_with_count_last(entries, count);
        if a < with_count(entries.drop_last(), count).len() {
            lemma_filter_source(entries.drop_last(), count, a)
        } else {
            entries.len() - 1
        }
    }
}

/// Every player with characters and runs is on the leaderboard, under their label and id
/// and with all their runs.
pub proof fn every_player_with_runs_is_ranked(
    players: Seq<PlayerTotal>,
    untracked: Seq<UntrackedTotal>,
    ranked: Seq<LeaderboardEntry>,
    i: int,
) -> (at: int)
    requires
        is_ranking(ranked, unranked(players, untracked)),
        0 <= i < players.len(),
        players[i].character_ids@.len() > 0,
        players[i].count != 0,
    ensures
        0 <= at < ranked.len(),
        ranked[at].display_name == players[i].player.label,
        ranked[at].player_id == Some(players[i].player.id),
        ranked[at].count == players[i].count,
        ranked[at].is_player,
{
    let entries = unranked(players, untracked);
    lemma_player_entries_hold(players, i);
    let k = choose|k: int|
        0 <= k < player_entries(players).len() && (#[trigger] player_entries(players)[k])
            == player_entry(players[i]);
    assert(entries[k] == player_entry(players[i]));
    lemma_ranked_entry(ranked, entries, k)
}

/// Every character of no player is on the leaderboard, under its name and with its runs.
pub proof fn every_untracked_character_is_ranked(
    players: Seq<PlayerTotal>,
    untracked: Seq<UntrackedTotal>,
    ranked: Seq<LeaderboardEntry>,
    j: int,
) -> (at: int)
    requires
        is_ranking(ranked, unranked(players, untracked)),
        0 <= j < untracked.len(),
    ensures
        0 <= at < ranked.len(),
        ranked[at].display_name == untracked[j].name,
        ranked[at].player_id is None,
        ranked[at].count == untracked[j].count,
        !ranked[at].is_player,
{
    let entries = unranked(players, untracked);
    let k = player_entries(players).len() + j;
    assert(entries[k] == untracked_entry(untracked[j]));
    lemma_ranked_entry(ranked, entries, k)
}

/// Everyone on the leaderboard is a player with characters and runs or a character of no
/// player, and has the runs that the ranking gives them.
pub proof fn ranked_entries_are_someones(
    players: Seq<PlayerTotal>,
    untracked: Seq<UntrackedTotal>,
    ranked: Seq<LeaderboardEntry>,
    at: int,
) -> (source: int)
    requires
        is_ranking(ranked, unranked(players, untracked)),
        0 <= at < ranked.len(),
    ensures
        ranked[at].is_player ==> {
            &&& 0 <= source < players.len()
            &&& players[source].character_ids@.len() > 0
            &&& players[source].count != 0
            &&& ranked[at].display_name == players[source].player.label
            &&& ranked[at].player_id == Some(players[source].player.id)
            &&& ranked[at].count == players[source].count
        },
        !ranked[at].is_player ==> {
            &&& 0 <= source < untracked.len()
            &&& ranked[at].display_name == untracked[source].name
            &&& ranked[at].player_id is None
            &&& ranked[at].count == untracked[source].count
        },
{
    let entries = unranked(players, untracked);
    let count = ranked[at].count;
    let same = |entry: LeaderboardEntry| entry.count == count;
    ranked.lemma_filter_contains(same, at);
    assert(with_count(ranked, count).contains(ranked[at]));
    assert(with_count(entries, count).contains(ranked[at]));
    let a = choose|a: int|
        0 <= a < with_count(entries, count).len() && with_count(entries, count)[a] == ranked[at];
    let k = lemma_filter_source(entries, count, a);
    if k < player_entries(players).len() {
        lemma_player_entries_come_from(players, k);
        let i = choose|i: int|
            0 <= i < players.len() && is_ranked(players[i]) && player_entries(players)[k]
                == #[trigger] player_entry(players[i]);
        assert(entries[k] == player_entry(players[i]));
        i
    } else {
        let j = k - player_entries(players).len();
        assert(entries[k] == untracked_entry(untracked[j]));
        j
    }
}

/// Nobody comes after someone with fewer runs.
pub proof fn more_runs_rank_higher(
    players: Seq<PlayerTotal>,
    untracked: Seq<UntrackedTotal>,
    ranked: Seq<LeaderboardEntry>,
    i: int,
    j: int,
)
    requires
        is_ranking(ranked, unranked(players, untracked)),
        0 <= i < j < ranked.len(),
    ensures
        ranked[i].count >= ranked[j].count,
{
}

/// Nobody is on the leaderboard twice: it has one entry for each player with characters and
/// runs and one for each character of no player.
pub proof fn one_entry_each(
    players: Seq<PlayerTotal>,
    untracked: Seq<UntrackedTotal>,
    ranked: Seq<LeaderboardEntry>,
)
    requires
        ranked.to_multiset() == unranked(players, untracked).to_multiset(),
    ensures
        ranked.len() == players.filter(
            |total: PlayerTotal| total.character_ids@.len() > 0 && total.count != 0,
        ).len() + untracked.len(),
{
    let entries = unranked(players, untracked);
    ranked.to_multiset_ensures();
    entries.to_multiset_ensures();
    lemma_player_entries_len(players);
}

proof fn lemma_player_entries_len(players: Seq<PlayerTotal>)
    ensures
        player_entries(players).len() == players.filter(
            |total: PlayerTotal| total.character_ids@.len() > 0 && total.count != 0,
        ).len(),
    decreases players.len(),
{
    reveal(Seq::filter);
    if players.len() > 0 {
        lemma_player_entries_len(players.drop_last());
    }
}

proof fn lemma_filter_keeps_order(
    entries: Seq<LeaderboardEntry>,
    count: i64,
    p: int,
    q: int,
) -> (at: (int, int))
    requires
        0 <= p < q < entries.len(),
        entries[p].count == count,
        entries[q].count == count,
    ensures
        0 <= at.0 < at.1 < with_count(entries, count).len(),
        with_count(entries, count)[at.0] == entries[p],
        with_count(entries, count)[at.1] == entries[q],
    decreases entries.len(),
{
    lemma_with_count_last(entries, count);
    let before = entries.drop_last();
    if q < entries.len() - 1 {
        lemma_filter_keeps_order(before, count, p, q)
    } else {
        let same = |entry: LeaderboardEntry| entry.count == count;
        before.lemma_filter_contains(same, p);
        assert(with_count(before, count).contains(before[p]));
        let a = choose|a: int|
            0 <= a < with_count(before, count).len() && with_count(before, count)[a] == before[p];
        (a, with_count(before, count).len() as int)
    }
}

proof fn lemma_filter_sources_keep_order(
    entries: Seq<LeaderboardEntry>,
    count: i64,
    a: int,
    b: int,
) -> (at: (int, int))
    requires
        0 <= a < b < with_count(entries, count).len(),
    ensures
        0 <= at.0 < at.1 < entries.len(),
        entries[at.0] == with_count(entries, count)[a],
        entries[at.1] == with_count(entries, count)[b],
    decreases entries.len(),
{
    if entries.len() == 0 {
        lemma_with_count_none(entries, count);
        (0, 0)
    } else {
        lemma_with_count_last(entries, count);
        let before = entries.drop_last();
        if b < with_count(before, count).len() {
            lemma_filter_sources_keep_order(before, count, a, b)
        } else {
            (lemma_filter_source(before, count, a), entries.len() - 1)
        }
    }
}

/// Of two entries with the same number of runs, the one that came first stays first.
pub proof fn ties_keep_their_order(
    entries: Seq<LeaderboardEntry>,
    ranked: Seq<LeaderboardEntry>,
    p: int,
    q: int,
) -> (at: (int, int))
    requires
        is_ranking(ranked, entries),
        0 <= p < q < entries.len(),
        entries[p].count == entries[q].count,
    ensures
        0 <= at.0 < at.1 < ranked.len(),
        ranked[at.0] == entries[p],
        ranked[at.1] == entries[q],
{
    let count = entries[p].count;
    let (a, b) = lemma_filter_keeps_order(entries, count, p, q);
    assert(with_count(ranked, count) == with_count(entries, count));
    lemma_filter_sources_keep_order(ranked, count, a, b)
}

/// A player ranks before a character of no player with the same number of runs.
pub proof fn tied_player_ranks_before_a_character(
    players: Seq<PlayerTotal>,
    untracked: Seq<UntrackedTotal>,
    ranked: Seq<LeaderboardEntry>,
    i: int,
    j: int,
) -> (at: (int, int))
    requires
        is_ranking(ranked, unranked(players, untracked)),
        0 <= i < players.len(),
        players[i].character_ids@.len() > 0,
        players[i].count != 0,
        0 <= j < untracked.len(),
        untracked[j].count == players[i].count,
    ensures
        0 <= at.0 < at.1 < ranked.len(),
        ranked[at.0].player_id == Some(players[i].player.id),
        ranked[at.1].player_id is None,
        ranked[at.1].display_name == untracked[j].name,
{
    let entries = unranked(players, untracked);
    lemma_player_entries_hold(players, i);
    let p = choose|k: int|
        0 <= k < player_entries(players).len() && (#[trigger] player_entries(players)[k])
            == player_entry(players[i]);
    let q = player_entries(players).len() + j;
    assert(entries[p] == player_entry(players[i]));
    assert(entries[q] == untracked_entry(untracked[j]));
    ties_keep_their_order(entries, ranked, p, q)
}

} // verus!
