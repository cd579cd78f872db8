use chrono::{DateTime, Utc};
use mplus_tracker::db::{
    changed_rows, counted_runs, CharacterRow, Database, LinkBackfill, LinkOutcome, RunRow, SqlValue,
    Statement,
};
use mplus_tracker::instant::UtcInstant;
use mplus_tracker::models::Run;
use mplus_tracker::service::CharacterKey;
use std::collections::{HashMap, HashSet};

fn at(text: &str) -> UtcInstant {
    let at = DateTime::parse_from_rfc3339(text).unwrap();
    UtcInstant::new(at.timestamp(), at.timestamp_subsec_nanos()).unwrap()
}

fn values(statement: &Statement) -> Vec<String> {
    statement
        .values
        .iter()
        .map(|value| match value {
            SqlValue::Text(text) => format!("text {}", text),
            SqlValue::OptionalText(Some(text)) => format!("some {}", text),
            SqlValue::OptionalText(None) => "null".to_string(),
            SqlValue::Integer(n) => format!("int {}", n),
            SqlValue::Instant(at) => {
                DateTime::from_timestamp(at.secs(), at.nanos()).unwrap().to_rfc3339()
            }
        })
        .collect()
}

fn is_balanced(statement: &Statement) -> bool {
    statement.sql.matches('?').count() == statement.values.len()
}

#[test]
fn how_to_connect() {
    let connection = Database::connect("/data/mplus.sqlite");
    assert_eq!(connection.url, "sqlite:/data/mplus.sqlite?mode=rwc");
    assert_eq!(connection.max_connections, 5);
    let pragmas: Vec<&str> = connection.pragmas.iter().map(|p| p.sql.as_str()).collect();
    assert_eq!(pragmas, vec!["PRAGMA journal_mode=WAL", "PRAGMA foreign_keys=ON"]);
    assert_eq!(Database::connect("sqlite::memory:").url, "sqlite::memory:");
    assert_eq!(Database::connect("my-sqlite:x").url, "sqlite:my-sqlite:x?mode=rwc");
}

#[test]
fn upsert_of_a_character() {
    let now = at("2024-10-15T20:00:00Z");
    let statement =
        Database::upsert_character_at("us", "area-52", "Ash", Some("My Guild"), None, now);
    assert!(statement.sql.starts_with("INSERT INTO characters (region, realm, name,"));
    assert!(statement.sql.ends_with("RETURNING id"));
    assert!(is_balanced(&statement));
    assert_eq!(
        values(&statement),
        vec![
            "text us",
            "text area-52",
            "text Ash",
            "some My Guild",
            "null",
            "2024-10-15T20:00:00+00:00",
        ]
    );
    let statement = Database::upsert_character("us", "area-52", "Ash", None, None);
    match &statement.values[5] {
        SqlValue::Instant(at) => assert!((Utc::now().timestamp() - at.secs()).abs() < 60),
        value => panic!("{:?}", value),
    }
}

#[test]
fn statements_bind_in_order() {
    let from = at("2024-10-01T00:00:00Z");
    let to = at("2024-10-31T23:59:59Z");
    let (f, t) = ("2024-10-01T00:00:00+00:00", "2024-10-31T23:59:59+00:00");
    let cases = vec![
        (Database::find_character_id("a", "b", "c"), vec!["text a", "text b", "text c"]),
        (Database::get_character("a", "b", "c"), vec!["text a", "text b", "text c"]),
        (Database::list_all_characters(), vec![]),
        (Database::upsert_player("p", "P"), vec!["text p", "text P"]),
        (Database::link_player_character("p", 4), vec!["text p", "int 4"]),
        (Database::get_player("p"), vec!["text p"]),
        (Database::get_player_character_ids("p"), vec!["text p"]),
        (
            Database::count_runs_for_character(4, from, to, 10),
            vec!["int 4", f, t, "int 10"],
        ),
        (Database::get_guild_members("g", "r"), vec!["text g", "text r"]),
        (Database::list_runs(from, to, 10, 200), vec![f, t, "int 10", "int 200"]),
        (
            Database::list_runs_for_guild("g", "r", from, to, 10, 500),
            vec!["text g", "text r", f, t, "int 10", "int 500"],
        ),
        (Database::list_all_characters_debug(), vec![]),
        (Database::run_hash_exists("h"), vec!["text h"]),
        (Database::get_all_players(), vec![]),
        (Database::get_depletions(from, to, 50), vec![f, t, "int 50"]),
        (Database::get_untracked_runs(from, to, 10), vec![f, t, "int 10"]),
        (Database::delete_character("a", "b", "c"), vec!["text a", "text b", "text c"]),
    ];
    for (statement, expected) in cases {
        assert_eq!(values(&statement), expected);
        assert!(is_balanced(&statement));
    }
}

#[test]
fn insert_of_a_run() {
    let run = Run {
        character_id: 7,
        dungeon_short: "ARAK".to_string(),
        key_level: 12,
        completed_at: at("2024-10-15T20:00:00Z"),
        within_time: true,
        season: None,
        url: Some("u".to_string()),
        source_run_id: Some("42".to_string()),
        hash: "h".to_string(),
    };
    let statement = Database::insert_run(&run);
    assert!(is_balanced(&statement));
    assert!(statement.sql.ends_with("ON CONFLICT (hash) DO NOTHING"));
    assert_eq!(
        values(&statement),
        vec![
            "int 7",
            "text ARAK",
            "int 12",
            "2024-10-15T20:00:00+00:00",
            "int 1",
            "null",
            "some u",
            "some 42",
            "text h",
        ]
    );
    let run = Run { within_time: false, ..run };
    assert_eq!(values(&Database::insert_run(&run))[4], "int 0");
}

#[test]
fn count_over_several_characters() {
    let from = at("2024-10-01T00:00:00Z");
    let to = at("2024-10-31T23:59:59Z");
    assert!(Database::count_runs_for_characters(&[], from, to, 0).is_none());
    let statement = Database::count_runs_for_characters(&[5], from, to, 0).unwrap();
    assert!(statement.sql.contains("character_id IN (?) AND"));
    assert!(is_balanced(&statement));
    let statement = Database::count_runs_for_characters(&[5, 6, 9], from, to, 2).unwrap();
    assert_eq!(
        statement.sql,
        "SELECT COUNT(*) FROM runs WHERE character_id IN (?,?,?) \
         AND completed_at BETWEEN ? AND ? AND key_level >= ? AND within_time = 1"
    );
    assert_eq!(
        values(&statement),
        vec![
            "int 5",
            "int 6",
            "int 9",
            "2024-10-01T00:00:00+00:00",
            "2024-10-31T23:59:59+00:00",
            "int 2",
        ]
    );
}

#[test]
fn statistics_of_today_and_the_week() {
    let stats = Database::get_debug_stats_at(
        at("2024-10-18T20:34:12.5Z"),
        at("2024-10-18T20:34:13.25Z"),
    );
    assert_eq!(values(&stats.runs_today), vec!["2024-10-18T00:00:00+00:00"]);
    assert_eq!(values(&stats.runs_this_week), vec!["2024-10-11T20:34:13.250+00:00"]);
    assert_eq!(stats.total_characters.sql, "SELECT COUNT(*) FROM characters");
    assert_eq!(stats.total_runs.sql, "SELECT COUNT(*) FROM runs WHERE within_time = 1");
    assert!(stats.runs_by_dungeon.sql.contains("GROUP BY dungeon_short"));
    assert!(stats.runs_by_keylevel.sql.contains("GROUP BY key_level"));
    assert!(stats.top_characters.sql.ends_with("LIMIT 20"));
    let stats = Database::get_debug_stats();
    match stats.runs_today.values[0] {
        SqlValue::Instant(at) => assert_eq!((at.secs() % 86_400, at.nanos()), (0, 0)),
        _ => panic!(),
    }
}

#[test]
fn rows_of_runs() {
    let row = |within_time: i64| RunRow {
        id: 1,
        character_name: "Ash".to_string(),
        realm: "area-52".to_string(),
        region: "us".to_string(),
        dungeon_short: "ARAK".to_string(),
        key_level: 12,
        completed_at: at("2024-10-15T20:00:00Z"),
        within_time,
        url: None,
        hash: "h".to_string(),
    };
    let run = row(1).into_run();
    assert_eq!(run.completed_at, "2024-10-15T20:00:00+00:00");
    assert!(run.within_time);
    assert_eq!(
        (run.id, run.character_name.as_str(), run.realm.as_str(), run.region.as_str()),
        (1, "Ash", "area-52", "us")
    );
    assert_eq!((run.dungeon_short.as_str(), run.key_level, run.url, run.hash.as_str()),
        ("ARAK", 12, None, "h"));
    assert!(!row(0).into_run().within_time);
    assert!(row(-1).into_run().within_time);
    assert_eq!(row(1).into_run_with("then".to_string()).completed_at, "then");
}

#[test]
fn rows_of_characters() {
    let row = |last_seen: Option<UtcInstant>| CharacterRow {
        id: 1,
        region: "us".to_string(),
        realm: "area-52".to_string(),
        name: "Ash".to_string(),
        guild_name: Some("g".to_string()),
        guild_realm: None,
        last_seen,
        run_count: 3,
    };
    let character = row(Some(at("2024-10-15T20:00:00Z"))).into_character();
    assert_eq!(character.last_seen.as_deref(), Some("2024-10-15T20:00:00+00:00"));
    assert_eq!((character.id, character.run_count), (1, 3));
    assert_eq!(character.guild_name.as_deref(), Some("g"));
    assert_eq!(character.guild_realm, None);
    assert_eq!(row(None).into_character().last_seen, None);
}

#[test]
fn links_after_the_fact() {
    let key = |name: &str| CharacterKey {
        region: "us".to_string(),
        realm: "area-52".to_string(),
        name: name.to_string(),
    };
    let characters = vec![key("New"), key("Unknown"), key("Linked")];
    let mut backfill = Database::backfill_player_links("player_ash", characters);

    let find = backfill.find().unwrap();
    assert_eq!(values(&find), vec!["text us", "text area-52", "text New"]);
    let link = backfill.found(Some(4)).unwrap();
    assert_eq!(values(&link), vec!["text player_ash", "int 4"]);
    backfill.link_done(1);

    assert_eq!(values(&backfill.find().unwrap())[2], "text Unknown");
    assert!(backfill.found(None).is_none());

    assert_eq!(values(&backfill.find().unwrap())[2], "text Linked");
    assert!(backfill.found(Some(6)).is_some());
    backfill.link_done(0);

    assert!(backfill.find().is_none());
    assert_eq!(
        backfill.outcomes,
        vec![LinkOutcome::Linked, LinkOutcome::Unknown, LinkOutcome::AlreadyLinked]
    );
    assert_eq!(backfill.linked, 1);
}

fn run_backfill(
    mut backfill: LinkBackfill,
    ids: &HashMap<String, i64>,
    links: &mut HashSet<i64>,
) -> usize {
    while let Some(find) = backfill.find() {
        let id = ids.get(&values(&find)[2]).copied();
        if backfill.found(id).is_some() {
            let is_new = links.insert(id.unwrap());
            backfill.link_done(if is_new { 1 } else { 0 });
        }
    }
    backfill.linked
}

#[test]
fn second_backfill_makes_no_link() {
    let list = || {
        ["Ash", "Bo", "Nobody", "Ash"]
            .iter()
            .map(|name| CharacterKey {
                region: "us".to_string(),
                realm: "area-52".to_string(),
                name: name.to_string(),
            })
            .collect::<Vec<CharacterKey>>()
    };
    let ids = HashMap::from([("text Ash".to_string(), 1), ("text Bo".to_string(), 2)]);
    let mut links = HashSet::from([2]);
    let first = run_backfill(Database::backfill_player_links("p", list()), &ids, &mut links);
    assert_eq!((first, links.clone()), (1, HashSet::from([1, 2])));
    let second = run_backfill(Database::backfill_player_links("p", list()), &ids, &mut links);
    assert_eq!((second, links), (0, HashSet::from([1, 2])));
}

#[test]
fn rows_and_counts() {
    assert!(!changed_rows(0));
    assert!(changed_rows(1));
    assert!(changed_rows(u64::MAX));
    assert_eq!(counted_runs(None), 0);
    assert_eq!(counted_runs(Some(14)), 14);
}

#[test]
fn week_of_the_statistics_before_the_epoch() {
    let stats = Database::get_debug_stats_at(
        at("1969-12-31T20:00:00Z"),
        at("1969-12-31T20:00:00Z"),
    );
    assert_eq!(values(&stats.runs_today), vec!["1969-12-31T00:00:00+00:00"]);
    assert_eq!(values(&stats.runs_this_week), vec!["1969-12-24T20:00:00+00:00"]);
}
