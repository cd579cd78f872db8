use chrono::{DateTime, Utc};
use mplus_tracker::hash::run_hash;
use mplus_tracker::instant::UtcInstant;
use mplus_tracker::models::{
    RioCharacterProfile, RioGuildMember, RioGuildProfile, RioMemberCharacter, RioRun, RioRunId,
};
use mplus_tracker::raiderio::error_message;
use mplus_tracker::service::{
    crawled_recently, crawled_recently_at, is_fresh, plan_run, source_id, update_all_characters,
    update_character, update_guild, CharacterAction, CharacterKey, GuildAction, GuildUpdate,
    GuildUpdateResult, MemberOutcome, RunOutcome, RunPlan, UpdateOutcome,
};
use std::collections::HashSet;

fn at(text: &str) -> UtcInstant {
    let at = DateTime::parse_from_rfc3339(text).unwrap();
    UtcInstant::new(at.timestamp(), at.timestamp_subsec_nanos()).unwrap()
}

fn member(name: &str, region: Option<&str>, last_crawled_at: Option<&str>) -> RioGuildMember {
    RioGuildMember {
        character: RioMemberCharacter {
            name: name.to_string(),
            realm: "area-52".to_string(),
            region: region.map(|r| r.to_string()),
            last_crawled_at: last_crawled_at.map(|t| t.to_string()),
        },
        rank: None,
    }
}

fn guild(members: Option<Vec<RioGuildMember>>) -> GuildUpdate {
    let profile = RioGuildProfile {
        name: "Other".to_string(),
        realm: "other".to_string(),
        region: "xx".to_string(),
        members,
    };
    update_guild("us", "stormrage", "My Guild", profile)
}

fn key(action: &GuildAction) -> (&str, &str, &str, &str) {
    match action {
        GuildAction::Find(k) => ("find", &k.region, &k.realm, &k.name),
        GuildAction::Upsert(m) => {
            assert_eq!((m.guild_name.as_str(), m.guild_realm.as_str()), ("My Guild", "stormrage"));
            ("upsert", &m.character.region, &m.character.realm, &m.character.name)
        }
        GuildAction::Finish => ("finish", "", "", ""),
    }
}

fn rio_run(upgrades: i64, completed_at: &str, id: Option<RioRunId>) -> RioRun {
    RioRun {
        dungeon: "Ara-Kara, City of Echoes".to_string(),
        short_name: "ARAK".to_string(),
        mythic_level: 12,
        completed_at: completed_at.to_string(),
        num_keystone_upgrades: upgrades,
        url: Some("https://raider.io/run".to_string()),
        id,
    }
}

fn profile(runs: Option<Vec<RioRun>>) -> RioCharacterProfile {
    RioCharacterProfile {
        name: "Ashmain".to_string(),
        realm: "Area 52".to_string(),
        region: "us".to_string(),
        mythic_plus_recent_runs: runs,
    }
}

#[test]
fn crawl_is_fresh_for_three_calendar_months() {
    let now = at("2024-05-31T12:00:00Z");
    assert!(is_fresh(at("2024-02-29T12:00:00Z"), now));
    assert!(!is_fresh(at("2024-02-29T11:59:59.999Z"), now));
    assert!(is_fresh(at("2024-06-01T00:00:00Z"), now));
    let now = at("2023-01-15T00:00:00.5Z");
    assert!(is_fresh(at("2022-10-15T00:00:00.5Z"), now));
    assert!(!is_fresh(at("2022-10-15T00:00:00.4Z"), now));
}

#[test]
fn freshness_lies_between_89_and_92_days() {
    let mut now = at("2023-01-01T00:00:00Z").secs();
    let end = at("2025-01-01T00:00:00Z").secs();
    while now < end {
        let instant = UtcInstant::new(now, 0).unwrap();
        assert!(is_fresh(UtcInstant::new(now - 89 * 86_400 + 1, 0).unwrap(), instant));
        assert!(!is_fresh(UtcInstant::new(now - 92 * 86_400 - 1, 0).unwrap(), instant));
        now += 86_400;
    }
}

#[test]
fn missing_or_unreadable_crawl_is_stale() {
    let now = at("2024-05-31T12:00:00Z");
    assert!(!crawled_recently_at(None, now));
    assert!(!crawled_recently_at(Some("yesterday"), now));
    assert!(!crawled_recently_at(Some(""), now));
    assert!(crawled_recently_at(Some("2024-05-30T12:00:00.000Z"), now));
    assert!(crawled_recently_at(Some("2024-02-29T13:00:00+01:00"), now));
    assert!(!crawled_recently_at(Some("2024-02-29T13:00:00+01:01"), now));
    assert!(!crawled_recently(None));
    assert!(!crawled_recently(Some("yesterday")));
    assert!(!crawled_recently(Some("2001-01-01T00:00:00Z")));
    assert!(crawled_recently(Some(&Utc::now().to_rfc3339())));
}

#[test]
fn guild_update_step_by_step() {
    let mut update = guild(Some(vec![
        member("New", None, None),
        member("Known", Some("eu"), Some("2024-01-01T00:00:00Z")),
        member("Fresh", None, Some("2024-05-30T00:00:00Z")),
    ]));
    let now = at("2024-05-31T12:00:00Z");

    let action = update.next_member_at(now);
    assert_eq!(key(&action), ("find", "us", "area-52", "New"));
    let action = update.found(None);
    assert_eq!(key(&action), ("upsert", "us", "area-52", "New"));
    update.upserted();

    let action = update.next_member_at(now);
    assert_eq!(key(&action), ("find", "eu", "area-52", "Known"));
    let action = update.found(Some(7));
    assert_eq!(key(&action), ("upsert", "eu", "area-52", "Known"));
    update.upserted();

    let action = update.next_member_at(now);
    assert_eq!(key(&action), ("upsert", "us", "area-52", "Fresh"));
    update.upserted();

    assert_eq!(key(&update.next_member_at(now)).0, "finish");
    assert_eq!(
        update.outcomes,
        vec![MemberOutcome::Added, MemberOutcome::Updated, MemberOutcome::SkippedFresh]
    );
    let result = update.finish();
    assert_eq!(
        (result.region.as_str(), result.realm.as_str(), result.name.as_str()),
        ("us", "stormrage", "My Guild")
    );
    assert_eq!(
        (result.members_added, result.members_updated, result.members_skipped_fresh),
        (1, 1, 1)
    );
    let members: Vec<(&str, &str, &str, Option<&str>)> = result
        .members
        .iter()
        .map(|m| (m.region.as_str(), m.realm.as_str(), m.name.as_str(), m.guild_name.as_deref()))
        .collect();
    assert_eq!(
        members,
        vec![
            ("us", "area-52", "New", Some("My Guild")),
            ("eu", "area-52", "Known", Some("My Guild")),
            ("us", "area-52", "Fresh", Some("My Guild")),
        ]
    );
}

#[test]
fn guild_update_looks_at_the_clock() {
    let mut update = guild(Some(vec![member("Fresh", None, Some(&Utc::now().to_rfc3339()))]));
    assert_eq!(key(&update.next_member()).0, "upsert");
    let mut update = guild(Some(vec![member("Stale", None, Some("2001-01-01T00:00:00Z"))]));
    assert_eq!(key(&update.next_member()).0, "find");
}

#[test]
fn guild_without_members() {
    let mut update = guild(None);
    assert_eq!(key(&update.next_member()).0, "finish");
    let result = update.finish();
    assert_eq!(
        (result.members_added, result.members_updated, result.members_skipped_fresh),
        (0, 0, 0)
    );
    assert!(result.members.is_empty());
}

#[test]
fn identifiers_of_runs() {
    assert_eq!(source_id(&None), None);
    assert_eq!(source_id(&Some(RioRunId::Other)), None);
    assert_eq!(source_id(&Some(RioRunId::Number("42".to_string()))), Some("42".to_string()));
    assert_eq!(source_id(&Some(RioRunId::Text("x-1".to_string()))), Some("x-1".to_string()));
}

#[test]
fn plan_of_a_timed_run() {
    let rio = rio_run(2, "2024-10-15T20:00:00.000Z", Some(RioRunId::Number("42".to_string())));
    match plan_run(7, &rio, Ok(at("2024-10-15T20:00:00Z")), "hash".to_string()) {
        RunPlan::Insert(run) => {
            assert_eq!(run.character_id, 7);
            assert_eq!(run.dungeon_short, "ARAK");
            assert_eq!(run.key_level, 12);
            assert_eq!(run.completed_at, at("2024-10-15T20:00:00Z"));
            assert!(run.within_time);
            assert_eq!(run.season, None);
            assert_eq!(run.url.as_deref(), Some("https://raider.io/run"));
            assert_eq!(run.source_run_id.as_deref(), Some("42"));
            assert_eq!(run.hash, "hash");
        }
        plan => panic!("{:?}", plan),
    }
}

#[test]
fn plan_of_runs_that_are_passed_over() {
    let rio = rio_run(0, "x", None);
    let plan = plan_run(7, &rio, Err("bad".to_string()), "hash".to_string());
    assert!(matches!(plan, RunPlan::Depleted));
    let rio = rio_run(1, "x", None);
    match plan_run(7, &rio, Err("bad".to_string()), "hash".to_string()) {
        RunPlan::Unreadable(message) => assert_eq!(message, "bad"),
        plan => panic!("{:?}", plan),
    }
}

#[test]
fn character_update_step_by_step() {
    let runs = vec![
        rio_run(0, "2024-10-15T20:00:00.000Z", None),
        rio_run(1, "2024-10-16T20:00:00.000Z", Some(RioRunId::Number("42".to_string()))),
        rio_run(1, "last tuesday", None),
        rio_run(3, "2024-10-17T22:00:00.000+02:00", None),
        rio_run(0, "last tuesday", None),
    ];
    let mut update = update_character("us", "area-52", "Ashmain", 7, profile(Some(runs)));
    match update.next_run() {
        CharacterAction::Insert(run) => {
            assert_eq!(run.character_id, 7);
            assert_eq!(run.completed_at, at("2024-10-16T20:00:00Z"));
            assert_eq!(run.source_run_id.as_deref(), Some("42"));
            assert_eq!(
                run.hash,
                run_hash(
                    "us",
                    "area-52",
                    "ashmain",
                    "ARAK",
                    12,
                    "2024-10-16T20:00:00.000Z",
                    Some("42")
                )
            );
        }
        action => panic!("{:?}", action),
    }
    update.inserted(true);
    match update.next_run() {
        CharacterAction::Insert(run) => {
            assert_eq!(run.completed_at, at("2024-10-17T20:00:00Z"));
            assert_eq!(run.source_run_id, None);
        }
        action => panic!("{:?}", action),
    }
    update.inserted(false);
    assert!(matches!(update.next_run(), CharacterAction::Finish));
    assert_eq!(
        update.outcomes,
        vec![
            RunOutcome::Depleted,
            RunOutcome::Inserted,
            RunOutcome::Unreadable,
            RunOutcome::Duplicate,
            RunOutcome::Depleted,
        ]
    );
    let result = update.finish();
    assert_eq!((result.runs_inserted, result.runs_ignored), (1, 3));
    assert_eq!(result.character.region, "us");
    assert_eq!(result.character.realm, "area-52");
    assert_eq!(result.character.name, "Ashmain");
    assert_eq!(result.character.guild_name, None);
}

#[test]
fn character_without_runs() {
    let mut update = update_character("us", "area-52", "Ashmain", 7, profile(None));
    assert!(matches!(update.next_run(), CharacterAction::Finish));
    let result = update.finish();
    assert_eq!((result.runs_inserted, result.runs_ignored), (0, 0));
}

fn character(name: &str) -> CharacterKey {
    CharacterKey {
        region: "us".to_string(),
        realm: "area-52".to_string(),
        name: name.to_string(),
    }
}

#[test]
fn account_of_all_updates() {
    let mut result = update_all_characters(5);
    assert!(result.record(UpdateOutcome::Updated).is_none());
    let gone = error_message(400, "{\"message\":\"Could not find requested character\"}");
    let pruned = result.record(UpdateOutcome::Failed(character("Gone"), gone)).unwrap();
    assert_eq!(
        (pruned.region.as_str(), pruned.realm.as_str(), pruned.name.as_str()),
        ("us", "area-52", "Gone")
    );
    let bad = error_message(400, "Bad realm");
    assert!(result.record(UpdateOutcome::Failed(character("Bad"), bad)).is_none());
    let other = error_message(404, "Could not find requested character");
    assert!(result.record(UpdateOutcome::Failed(character("Other"), other)).is_none());
    assert!(result.record(UpdateOutcome::Died("boom".to_string())).is_none());
    assert_eq!(
        (result.total_characters, result.updated_ok, result.failed, result.pruned),
        (5, 1, 3, 1)
    );
    assert_eq!(
        result.errors,
        vec![
            "Bad: Raider.IO error 400 Bad Request: Bad realm",
            "Other: Raider.IO error 404 Not Found: Could not find requested character",
            "Task panic: boom",
        ]
    );
}

fn run_guild_update(known: &mut HashSet<(String, String, String)>) -> GuildUpdateResult {
    let now = at("2024-05-31T12:00:00Z");
    let mut update = guild(Some(vec![
        member("New", None, None),
        member("Known", Some("eu"), None),
        member("Fresh", None, Some("2024-05-30T00:00:00Z")),
        member("New", None, None),
    ]));
    let mut action = update.next_member_at(now);
    loop {
        action = match action {
            GuildAction::Find(k) => {
                let found = known.contains(&(k.region, k.realm, k.name));
                update.found(if found { Some(1) } else { None })
            }
            GuildAction::Upsert(m) => {
                let k = m.character;
                known.insert((k.region, k.realm, k.name));
                update.upserted();
                update.next_member_at(now)
            }
            GuildAction::Finish => return update.finish(),
        };
    }
}

#[test]
fn second_guild_update_adds_no_member() {
    let mut known =
        HashSet::from([("eu".to_string(), "area-52".to_string(), "Known".to_string())]);
    let first = run_guild_update(&mut known);
    assert_eq!(
        (first.members_added, first.members_updated, first.members_skipped_fresh),
        (1, 2, 1)
    );
    let after = known.clone();
    let second = run_guild_update(&mut known);
    assert_eq!(
        (second.members_added, second.members_updated, second.members_skipped_fresh),
        (0, 3, 1)
    );
    assert_eq!(known, after);
    let names = |r: &GuildUpdateResult| {
        r.members.iter().map(|m| (m.region.clone(), m.name.clone())).collect::<Vec<_>>()
    };
    assert_eq!(names(&first), names(&second));
}

fn run_character_update(stored: &mut HashSet<String>) -> (usize, usize) {
    let runs = vec![
        rio_run(1, "2024-10-16T20:00:00.000Z", Some(RioRunId::Number("42".to_string()))),
        rio_run(0, "2024-10-16T20:00:00.000Z", None),
        rio_run(1, "last tuesday", None),
        rio_run(2, "2024-10-17T20:00:00.000Z", None),
        rio_run(2, "2024-10-17T20:00:00.000Z", None),
    ];
    let mut update = update_character("us", "area-52", "Ashmain", 7, profile(Some(runs)));
    while let CharacterAction::Insert(run) = update.next_run() {
        let inserted = stored.insert(run.hash);
        update.inserted(inserted);
    }
    let result = update.finish();
    (result.runs_inserted, result.runs_ignored)
}

#[test]
fn second_character_update_inserts_no_run() {
    let mut stored = HashSet::new();
    assert_eq!(run_character_update(&mut stored), (2, 2));
    let after = stored.clone();
    assert_eq!(run_character_update(&mut stored), (0, 4));
    assert_eq!(stored, after);
}

#[test]
fn skipped_members_are_those_crawled_recently() {
    let now = at("2024-05-31T12:00:00Z");
    let crawls = [
        Some("2024-05-30T00:00:00Z"),
        None,
        Some("2024-02-29T12:00:00Z"),
        Some("2024-02-29T11:59:59Z"),
        Some("yesterday"),
    ];
    let members = crawls.iter().map(|crawl| member("M", None, *crawl)).collect();
    let mut update = guild(Some(members));
    let mut action = update.next_member_at(now);
    loop {
        action = match action {
            GuildAction::Find(_) => update.found(Some(1)),
            GuildAction::Upsert(_) => {
                update.upserted();
                update.next_member_at(now)
            }
            GuildAction::Finish => break,
        };
    }
    let recent = crawls.iter().filter(|crawl| crawled_recently_at(**crawl, now)).count();
    assert_eq!(recent, 2);
    assert_eq!(update.finish().members_skipped_fresh, recent);
}
