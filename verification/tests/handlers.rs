use chrono::{DateTime, Utc};
use mplus_tracker::db::SqlValue;
use mplus_tracker::handlers::{
    datetime_param, delete_character, get_character_keys, get_character_keys_at,
    get_debug_depletions, get_debug_depletions_at, get_debug_guild_runs, get_debug_guild_runs_at,
    get_debug_hash_check, get_debug_runs, get_debug_runs_at, get_guild_roster, get_health,
    get_leaderboard, get_leaderboard_at, get_player_keys, get_player_keys_at, get_players,
    parse_optional_dt, post_update_character, post_update_guild, query_window_at, AppErr,
    CharacterKeysResponse, CharacterParams, CharacterRef, CharacterUpdateResponse,
    DebugRunsQuery, DepletionEntry, DepletionsResponse, GuildParams, GuildRunsQuery,
    GuildUpdateResponse, HashCheckQuery, KeysQuery, LeaderboardResponse, PlayerKeysResponse,
    UpdateAllResponse, WindowText,
};
use mplus_tracker::instant::UtcInstant;
use mplus_tracker::models::{ApiError, Character, CharacterSummary, Player};
use mplus_tracker::service::{
    update_all_characters, CharacterUpdateResult, GuildUpdateResult, UpdateOutcome,
};
use mplus_tracker::time_window::{Scope, TimeWindow};

fn at(text: &str) -> UtcInstant {
    let at = DateTime::parse_from_rfc3339(text).unwrap();
    UtcInstant::new(at.timestamp(), at.timestamp_subsec_nanos()).unwrap()
}

fn now() -> UtcInstant {
    at("2024-10-18T20:34:12Z")
}

fn some(text: &str) -> Option<String> {
    Some(text.to_string())
}

fn refusal<T>(r: Result<T, AppErr>) -> (u16, String) {
    match r {
        Ok(_) => panic!("not refused"),
        Err(AppErr(status, message)) => (status, message),
    }
}

fn keys(scope: Scope, min_level: Option<i64>, from: Option<&str>, to: Option<&str>) -> KeysQuery {
    KeysQuery {
        scope,
        min_level,
        from: from.map(|t| t.to_string()),
        to: to.map(|t| t.to_string()),
    }
}

fn debug(scope: Scope, limit: Option<i64>, region: Option<&str>) -> DebugRunsQuery {
    DebugRunsQuery {
        scope,
        min_level: None,
        from: None,
        to: None,
        limit,
        region: region.map(|r| r.to_string()),
    }
}

fn character() -> Character {
    Character {
        id: 7,
        region: "us".to_string(),
        realm: "area-52".to_string(),
        name: "Ash".to_string(),
        guild_name: some("My Guild"),
        guild_realm: None,
        last_seen: None,
    }
}

fn player() -> Player {
    Player { id: "player_ash".to_string(), label: "Ash".to_string() }
}

fn show(values: &[SqlValue]) -> Vec<String> {
    values
        .iter()
        .map(|value| match value {
            SqlValue::Text(text) => text.clone(),
            SqlValue::OptionalText(text) => format!("{:?}", text),
            SqlValue::Integer(n) => n.to_string(),
            SqlValue::Instant(at) => {
                DateTime::from_timestamp(at.secs(), at.nanos()).unwrap().to_rfc3339()
            }
        })
        .collect()
}

#[test]
fn guild_to_update() {
    let params = |region: Option<&str>, realm: Option<&str>, name: Option<&str>| GuildParams {
        region: region.map(|t| t.to_string()),
        realm: realm.map(|t| t.to_string()),
        name: name.map(|t| t.to_string()),
    };
    let guild = post_update_guild(params(Some("us"), Some("area-52"), Some("My Guild"))).unwrap();
    assert_eq!(
        (guild.region.as_str(), guild.realm.as_str(), guild.name.as_str()),
        ("us", "area-52", "My Guild")
    );
    let missing = |what: &str| (400, format!("Missing `{}` parameter", what));
    assert_eq!(refusal(post_update_guild(params(None, None, None))), missing("region"));
    assert_eq!(refusal(post_update_guild(params(Some(""), None, None))), missing("region"));
    assert_eq!(refusal(post_update_guild(params(Some("us"), None, None))), missing("realm"));
    assert_eq!(
        refusal(post_update_guild(params(Some("us"), Some("r"), Some("")))),
        missing("name")
    );
}

#[test]
fn character_to_update() {
    let params = |name: Option<&str>| CharacterParams {
        region: some("us"),
        realm: some("area-52"),
        name: name.map(|t| t.to_string()),
    };
    let character = post_update_character(params(Some("Ash"))).unwrap();
    assert_eq!(
        (character.region.as_str(), character.realm.as_str(), character.name.as_str()),
        ("us", "area-52", "Ash")
    );
    assert_eq!(
        refusal(post_update_character(params(None))),
        (400, "Missing `name` parameter".to_string())
    );
}

fn is_uuid(id: &str) -> bool {
    id.len() == 36
        && id.chars().enumerate().all(|(i, c)| match i {
            8 | 13 | 18 | 23 => c == '-',
            14 => c == '4',
            19 => "89ab".contains(c),
            _ => "0123456789abcdef".contains(c),
        })
}

fn guild_result() -> GuildUpdateResult {
    GuildUpdateResult {
        region: "us".to_string(),
        realm: "area-52".to_string(),
        name: "My Guild".to_string(),
        members_added: 24,
        members_updated: 3,
        members_skipped_fresh: 5,
        members: vec![],
    }
}

#[test]
fn answer_to_a_guild_update() {
    let answer = GuildUpdateResponse::with_id("id".to_string(), guild_result());
    assert_eq!(answer.request_id, "id");
    assert_eq!(
        (answer.guild.region.as_str(), answer.guild.realm.as_str(), answer.guild.name.as_str()),
        ("us", "area-52", "My Guild")
    );
    assert_eq!(
        (answer.members_added, answer.members_updated, answer.members_skipped_fresh),
        (24, 3, 5)
    );
    let one = GuildUpdateResponse::new(guild_result()).request_id;
    let two = GuildUpdateResponse::new(guild_result()).request_id;
    assert!(is_uuid(&one) && is_uuid(&two));
    assert_ne!(one, two);
}

#[test]
fn answer_to_a_character_update() {
    let result = CharacterUpdateResult {
        character: CharacterSummary {
            region: "us".to_string(),
            realm: "area-52".to_string(),
            name: "Ash".to_string(),
            guild_name: None,
        },
        runs_inserted: 8,
        runs_ignored: 2,
    };
    let answer = CharacterUpdateResponse::new(result);
    assert!(is_uuid(&answer.request_id));
    assert_eq!(answer.character.name, "Ash");
    assert_eq!((answer.runs_inserted, answer.runs_ignored, answer.rate_limited), (8, 2, false));
}

#[test]
fn answer_to_an_update_of_all() {
    let mut result = update_all_characters(2);
    result.record(UpdateOutcome::Updated);
    result.record(UpdateOutcome::Died("boom".to_string()));
    let answer = UpdateAllResponse::new(result);
    assert!(is_uuid(&answer.request_id));
    assert_eq!(
        (answer.total_characters, answer.updated_ok, answer.failed, answer.pruned),
        (2, 1, 1, 0)
    );
    assert_eq!(answer.errors, vec!["Task panic: boom"]);
}

#[test]
fn deletion_of_a_character() {
    let delete = |deleted: bool| {
        delete_character(deleted, "us".to_string(), "area-52".to_string(), "Ash".to_string())
    };
    let answer = delete(true).unwrap();
    assert!(answer.deleted);
    assert_eq!(
        (answer.region.as_str(), answer.realm.as_str(), answer.name.as_str()),
        ("us", "area-52", "Ash")
    );
    assert_eq!(
        refusal(delete(false)),
        (404, "Character Ash on area-52-us not found in DB".to_string())
    );
}

#[test]
fn optional_times() {
    assert_eq!(parse_optional_dt(None).unwrap(), None);
    assert_eq!(
        parse_optional_dt(Some("2024-10-01T02:00:00+02:00")).unwrap(),
        Some(at("2024-10-01T00:00:00Z"))
    );
    let error = DateTime::parse_from_rfc3339("soon").unwrap_err().to_string();
    assert_eq!(
        refusal(parse_optional_dt(Some("soon"))),
        (400, format!("Invalid datetime `soon`: {}", error))
    );
    assert_eq!(
        refusal(datetime_param("raw", Err("why".to_string()))),
        (400, "Invalid datetime `raw`: why".to_string())
    );
    assert_eq!(datetime_param("raw", Ok(now())).unwrap(), now());
}

#[test]
fn window_of_a_query() {
    let window = |scope: Scope, from: Option<&str>, to: Option<&str>| {
        query_window_at(
            now(),
            scope,
            Some("eu"),
            &from.map(|t| t.to_string()),
            &to.map(|t| t.to_string()),
        )
    };
    let week = window(Scope::Week, None, None).unwrap();
    assert_eq!((week.from, week.to), (at("2024-10-16T07:00:00Z"), now()));
    let custom = window(
        Scope::Custom,
        Some("2024-10-01T00:00:00Z"),
        Some("2024-10-31T23:59:59Z"),
    )
    .unwrap();
    assert_eq!(
        (custom.from, custom.to),
        (at("2024-10-01T00:00:00Z"), at("2024-10-31T23:59:59Z"))
    );
    let (status, message) = refusal(window(Scope::Custom, Some("x"), Some("y")));
    assert_eq!(status, 400);
    assert!(message.starts_with("Invalid datetime `x`: "));
    let (_, message) = refusal(window(Scope::Today, None, Some("y")));
    assert!(message.starts_with("Invalid datetime `y`: "));
    assert_eq!(
        refusal(window(Scope::Custom, None, None)),
        (400, "scope=custom requires `from` parameter".to_string())
    );
    assert_eq!(
        refusal(window(Scope::Custom, Some("2024-10-01T00:00:00Z"), None)),
        (400, "scope=custom requires `to` parameter".to_string())
    );
    assert_eq!(
        refusal(window(
            Scope::Custom,
            Some("2024-10-31T00:00:00Z"),
            Some("2024-10-01T00:00:00Z")
        )),
        (400, "`from` must be before `to`".to_string())
    );
}

#[test]
fn keys_of_a_character() {
    let query = keys(Scope::Week, Some(10), None, None);
    let plan =
        get_character_keys_at(now(), &Some(character()), "us", "area-52", "Ash", &query).unwrap();
    assert_eq!(plan.window, TimeWindow { from: at("2024-10-15T13:00:00Z"), to: now() });
    assert_eq!(plan.min_level, 10);
    assert_eq!(
        show(&plan.statement.values),
        vec!["7", "2024-10-15T13:00:00+00:00", "2024-10-18T20:34:12+00:00", "10"]
    );
    let bad = keys(Scope::Custom, None, None, None);
    assert_eq!(
        refusal(get_character_keys(&None, "us", "area-52", "Ash", &bad)),
        (404, "Character Ash on area-52-us not found in DB".to_string())
    );
    assert_eq!(
        refusal(get_character_keys(&Some(character()), "us", "area-52", "Ash", &bad)),
        (400, "scope=custom requires `from` parameter".to_string())
    );
    let all = keys(Scope::Alltime, None, None, None);
    let plan = get_character_keys(&Some(character()), "us", "area-52", "Ash", &all).unwrap();
    assert_eq!((plan.min_level, plan.window.from.secs()), (0, 0));
}

#[test]
fn keys_of_a_player() {
    let query = keys(Scope::Week, None, None, None);
    let plan =
        get_player_keys_at(now(), &Some(player()), "player_ash", &[1, 2], &query).unwrap();
    assert_eq!(plan.window.from, at("2024-10-15T13:00:00Z"));
    assert_eq!(
        show(&plan.statement.unwrap().values),
        vec!["1", "2", "2024-10-15T13:00:00+00:00", "2024-10-18T20:34:12+00:00", "0"]
    );
    let plan = get_player_keys(&Some(player()), "player_ash", &[], &query).unwrap();
    assert!(plan.statement.is_none());
    assert_eq!(
        refusal(get_player_keys(&None, "nobody", &[], &query)),
        (404, "Player `nobody` not found".to_string())
    );
    let bad = keys(Scope::Custom, None, None, None);
    assert_eq!(refusal(get_player_keys(&Some(player()), "player_ash", &[], &bad)).0, 400);
}

#[test]
fn leaderboard_query_uses_the_us_reset() {
    let query = keys(Scope::Week, Some(2), None, None);
    let plan = get_leaderboard_at(now(), &query).unwrap();
    assert_eq!(plan.window.from, at("2024-10-15T13:00:00Z"));
    assert_eq!(
        show(&plan.statement.values),
        vec!["2024-10-15T13:00:00+00:00", "2024-10-18T20:34:12+00:00", "2"]
    );
    assert!(get_leaderboard(&query).is_ok());
    assert_eq!(refusal(get_leaderboard(&keys(Scope::Custom, None, None, None))).0, 400);
}

#[test]
fn debug_runs_are_limited() {
    let limit = |limit: Option<i64>| {
        let plan = get_debug_runs_at(now(), &debug(Scope::Today, limit, None)).unwrap();
        show(&plan.statement.values)[3].clone()
    };
    assert_eq!(limit(None), "200");
    assert_eq!(limit(Some(1_000)), "1000");
    assert_eq!(limit(Some(1_001)), "1000");
    assert_eq!(limit(Some(-5)), "-5");
    let plan = get_debug_runs_at(now(), &debug(Scope::Week, None, Some("EU"))).unwrap();
    assert_eq!(plan.window.from, at("2024-10-16T07:00:00Z"));
    assert!(get_debug_runs(&debug(Scope::Week, None, None)).is_ok());
}

fn guild_runs(realm: Option<&str>, name: Option<&str>, limit: Option<i64>) -> GuildRunsQuery {
    GuildRunsQuery {
        region: None,
        realm: realm.map(|t| t.to_string()),
        name: name.map(|t| t.to_string()),
        scope: Scope::Alltime,
        min_level: Some(4),
        from: None,
        to: None,
        limit,
    }
}

#[test]
fn debug_runs_of_a_guild() {
    let query = guild_runs(Some("area-52"), Some("My Guild"), None);
    let plan = get_debug_guild_runs_at(now(), &query).unwrap();
    assert_eq!(
        show(&plan.statement.values),
        vec![
            "My Guild",
            "area-52",
            "1970-01-01T00:00:00+00:00",
            "2024-10-18T20:34:12+00:00",
            "4",
            "500",
        ]
    );
    let query = guild_runs(Some("area-52"), Some("My Guild"), Some(3_000));
    let plan = get_debug_guild_runs(&query).unwrap();
    assert_eq!(show(&plan.statement.values)[5], "2000");
    assert_eq!(
        refusal(get_debug_guild_runs(&guild_runs(None, None, None))),
        (400, "Missing `realm` parameter".to_string())
    );
    assert_eq!(
        refusal(get_debug_guild_runs(&guild_runs(Some("r"), Some(""), None))),
        (400, "Missing `name` parameter".to_string())
    );
}

#[test]
fn debug_depletions_are_limited() {
    let plan = get_debug_depletions_at(now(), &debug(Scope::Today, None, None)).unwrap();
    assert_eq!(
        show(&plan.statement.values),
        vec!["2024-10-18T00:00:00+00:00", "2024-10-18T20:34:12+00:00", "50"]
    );
    let plan = get_debug_depletions(&debug(Scope::Today, Some(500), None)).unwrap();
    assert_eq!(show(&plan.statement.values)[2], "200");
    assert_eq!(refusal(get_debug_depletions(&debug(Scope::Custom, None, None))).0, 400);
}

#[test]
fn window_in_words() {
    let window = TimeWindow { from: at("2024-10-15T13:00:00Z"), to: now() };
    let text = WindowText::new(Scope::Week, &window);
    assert_eq!(
        (text.scope.as_str(), text.from.as_str(), text.to.as_str()),
        ("week", "2024-10-15T13:00:00+00:00", "2024-10-18T20:34:12+00:00")
    );
    let character = CharacterRef {
        region: "us".to_string(),
        realm: "area-52".to_string(),
        name: "Ash".to_string(),
    };
    let answer = CharacterKeysResponse::new(character, text, 10, 14);
    assert_eq!((answer.scope.as_str(), answer.min_level, answer.count), ("week", 10, 14));
    assert_eq!(answer.character.realm, "area-52");
    let text = WindowText::new(Scope::Today, &window);
    let answer = PlayerKeysResponse::new("player_ash".to_string(), player(), text, 0, 21);
    assert_eq!((answer.player_id.as_str(), answer.label.as_str()), ("player_ash", "Ash"));
    assert_eq!((answer.from.as_str(), answer.count), ("2024-10-15T13:00:00+00:00", 21));
    let text = WindowText::new(Scope::Alltime, &window);
    let answer = LeaderboardResponse::new(text, 2, vec![]);
    assert_eq!((answer.scope.as_str(), answer.min_level), ("alltime", 2));
    let entry = DepletionEntry {
        name: "Ash".to_string(),
        realm: "area-52".to_string(),
        region: "us".to_string(),
        depleted_count: 3,
    };
    let answer = DepletionsResponse::new(WindowText::new(Scope::Custom, &window), vec![entry]);
    assert_eq!((answer.scope.as_str(), answer.entries[0].depleted_count), ("custom", 3));
    assert_eq!(answer.to, "2024-10-18T20:34:12+00:00");
}

#[test]
fn roster_of_a_guild() {
    let roster = get_guild_roster(
        &[character()],
        "us".to_string(),
        "area-52".to_string(),
        "My Guild".to_string(),
    );
    assert_eq!(roster.guild.name, "My Guild");
    assert_eq!(roster.members.len(), 1);
    assert_eq!(roster.members[0].name, "Ash");
    assert_eq!(roster.members[0].guild_name.as_deref(), Some("My Guild"));
}

#[test]
fn health() {
    let health = get_health();
    assert_eq!((health.status, health.version), ("ok", "0.1.0"));
}

#[test]
fn hash_check() {
    let answer = get_debug_hash_check(HashCheckQuery { hash: "h".to_string() }, true);
    assert_eq!((answer.hash.as_str(), answer.exists), ("h", true));
}

#[test]
fn list_of_players() {
    let answer = get_players(&[(player(), vec![1, 2])]);
    assert_eq!(answer.players.len(), 1);
    assert_eq!(answer.players[0].id, "player_ash");
    assert_eq!(answer.players[0].label, "Ash");
    assert_eq!(answer.players[0].character_count, 2);
}

#[test]
fn error_bodies() {
    let body = AppErr::internal("broken".to_string()).into_body();
    assert_eq!((body.code, body.error.as_str()), (500, "broken"));
    let body = ApiError::not_found("gone");
    assert_eq!((body.code, body.error.as_str()), (404, "gone"));
    let body = ApiError::bad_request("bad".to_string());
    assert_eq!((body.code, body.error.as_str()), (400, "bad"));
    let body = ApiError::internal("broken");
    assert_eq!((body.code, body.error.as_str()), (500, "broken"));
}

#[test]
fn clock_is_read_for_each_query() {
    let before = Utc::now().timestamp();
    let plan = get_leaderboard(&keys(Scope::Alltime, None, None, None)).unwrap();
    let after = Utc::now().timestamp();
    assert!(before <= plan.window.to.secs() && plan.window.to.secs() <= after);
}
