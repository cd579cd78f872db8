//! The requests that the service takes and the answers that it gives.

use crate::db::{
    counts_runs, runs_are_counted_for_each_id, values_are_bound_in_order, Bound, Database,
    SqlValue, Statement, COUNT_RUNS_FOR_CHARACTER, GET_DEPLETIONS, LIST_RUNS, LIST_RUNS_FOR_GUILD,
    UNTRACKED_RUNS,
};
use crate::instant::{
    is_clock_reading, moment_of, parse_rfc3339, read_clock, rfc3339_reading, rfc3339_text,
    to_rfc3339, Moment, UtcInstant, MIN_SECS,
};
use crate::models::{text_of, ApiError, Character, CharacterSummary, Player, SummaryText};
use crate::service::{CharacterUpdateResult, GuildUpdateResult, UpdateAllResult};
use crate::text::{join, str_text};
use crate::time_window::{is_window, window_error, Scope, TimeWindow};
use vstd::prelude::*;

verus! {

// Parameters of requests.

#[derive(Debug)]
pub struct GuildParams {
    pub region: Option<String>,
    pub realm: Option<String>,
    pub name: Option<String>,
}

#[derive(Debug)]
pub struct CharacterParams {
    pub region: Option<String>,
    pub realm: Option<String>,
    pub name: Option<String>,
}

#[derive(Debug)]
pub struct KeysQuery {
    pub scope: Scope,
    pub min_level: Option<i64>,
    pub from: Option<String>,
    pub to: Option<String>,
}

#[derive(Debug)]
pub struct DebugRunsQuery {
    pub scope: Scope,
    pub min_level: Option<i64>,
    pub from: Option<String>,
    pub to: Option<String>,
    pub limit: Option<i64>,
    pub region: Option<String>,
}

#[derive(Debug)]
pub struct GuildRunsQuery {
    pub region: Option<String>,
    pub realm: Option<String>,
    pub name: Option<String>,
    pub scope: Scope,
    pub min_level: Option<i64>,
    pub from: Option<String>,
    pub to: Option<String>,
    pub limit: Option<i64>,
}

#[derive(Debug)]
pub struct HashCheckQuery {
    pub hash: String,
}

// Answers.

#[derive(Debug)]
pub struct GuildUpdateResponse {
    pub request_id: String,
    pub guild: GuildRef,
    pub members_added: usize,
    pub members_updated: usize,
    /// Members that were crawled too recently for an update of their runs to be due.
    pub members_skipped_fresh: usize,
}

#[derive(Debug)]
pub struct GuildRef {
    pub region: String,
    pub realm: String,
    pub name: String,
}

#[derive(Debug)]
pub struct CharacterUpdateResponse {
    pub request_id: String,
    pub character: CharacterRef,
    pub runs_inserted: usize,
    pub runs_ignored: usize,
    pub rate_limited: bool,
}

#[derive(Debug)]
pub struct CharacterRef {
    pub region: String,
    pub realm: String,
    pub name: String,
}

#[derive(Debug)]
pub struct UpdateAllResponse {
    pub request_id: String,
    pub total_characters: usize,
    pub updated_ok: usize,
    pub failed: usize,
    pub pruned: usize,
    pub errors: Vec<String>,
}

#[derive(Debug)]
pub struct DeleteCharacterResponse {
    pub deleted: bool,
    pub region: String,
    pub realm: String,
    pub name: String,
}

#[derive(Debug)]
pub struct CharacterKeysResponse {
    pub character: CharacterRef,
    pub scope: String,
    pub from: String,
    pub to: String,
    pub min_level: i64,
    pub count: i64,
}

#[derive(Debug)]
pub struct PlayerKeysResponse {
    pub player_id: String,
    pub label: String,
    pub scope: String,
    pub from: String,
    pub to: String,
    pub min_level: i64,
    pub count: i64,
}

#[derive(Debug)]
pub struct RosterResponse {
    pub guild: GuildRef,
    pub members: Vec<CharacterSummary>,
}

#[derive(Debug)]
pub struct HealthResponse {
    pub status: &'static str,
    pub version: &'static str,
}

/// A run with its character, as the debug pages show it.
#[derive(Debug)]
pub struct DebugRun {
    pub id: i64,
    pub character_name: String,
    pub realm: String,
    pub region: String,
    pub dungeon_short: String,
    pub key_level: i64,
    pub completed_at: String,
    pub within_time: bool,
    pub url: Option<String>,
    pub hash: String,
}

#[derive(Debug)]
pub struct DebugStats {
    pub total_characters: i64,
    pub total_runs: i64,
    pub runs_today: i64,
    pub runs_this_week: i64,
    pub runs_by_dungeon: Vec<DungeonCount>,
    pub runs_by_keylevel: Vec<KeyLevelCount>,
    pub top_characters: Vec<CharacterRunCount>,
}

#[derive(Debug)]
pub struct DungeonCount {
    pub dungeon: String,
    pub count: i64,
}

#[derive(Debug)]
pub struct KeyLevelCount {
    pub key_level: i64,
    pub count: i64,
}

#[derive(Debug)]
pub struct CharacterRunCount {
    pub name: String,
    pub realm: String,
    pub region: String,
    pub run_count: i64,
}

#[derive(Debug)]
pub struct HashCheckResponse {
    pub hash: String,
    pub exists: bool,
}

#[derive(Debug)]
pub struct PlayerEntry {
    pub id: String,
    pub label: String,
    pub character_count: usize,
}

#[derive(Debug)]
pub struct PlayersResponse {
    pub players: Vec<PlayerEntry>,
}

#[derive(Debug, Clone)]
pub struct LeaderboardEntry {
    pub display_name: String,
    pub player_id: Option<String>,
    pub count: i64,
    pub is_player: bool,
}

#[derive(Debug)]
pub struct LeaderboardResponse {
    pub scope: String,
    pub from: String,
    pub to: String,
    pub min_level: i64,
    pub entries: Vec<LeaderboardEntry>,
}

#[derive(Debug)]
pub struct DepletionEntry {
    pub name: String,
    pub realm: String,
    pub region: String,
    pub depleted_count: i64,
}

#[derive(Debug)]
pub struct DepletionsResponse {
    pub scope: String,
    pub from: String,
    pub to: String,
    pub entries: Vec<DepletionEntry>,
}

// Errors.

/// A refusal: the status and the message of the error answer.
#[derive(Debug)]
pub struct AppErr(pub u16, pub String);

impl AppErr {
    pub open spec fn says(self, status: int, message: Seq<char>) -> bool {
        self.0 == status && self.1@ == message
    }

    /// The refusal of a request that failed inside the service.
    pub fn internal(message: String) -> (r: AppErr)
        ensures
            r.says(500, message@),
    {
        AppErr(500, message)
    }

    /// The body of the error answer.
    pub fn into_body(self) -> (r: ApiError)
        ensures
            r.code == self.0,
            r.error@ == self.1@,
    {
        ApiError { error: self.1, code: self.0 }
    }
}

// Parameters that must be there.

/// A parameter that is missing or empty.
pub open spec fn is_absent(param: Option<String>) -> bool {
    match param {
        Some(text) => text@.len() == 0,
        None => true,
    }
}

/// What is said of the first parameter that is absent.
pub open spec fn absent_param(
    region: Option<String>,
    realm: Option<String>,
    name: Option<String>,
) -> Option<Seq<char>> {
    if is_absent(region) {
        Some("Missing `region` parameter"@)
    } else if is_absent(realm) {
        Some("Missing `realm` parameter"@)
    } else if is_absent(name) {
        Some("Missing `name` parameter"@)
    } else {
        None
    }
}

/// A parameter, or a refusal with this message where it is absent.
fn required(param: Option<String>, message: &str) -> (r: Result<String, AppErr>)
    ensures
        match r {
            Ok(text) => !is_absent(param) && param == Some(text),
            Err(error) => is_absent(param) && error.says(400, message@),
        },
{
    match param {
        Some(text) => if text.as_str().is_empty() {
            Err(AppErr(400, String::from(message)))
        } else {
            Ok(text)
        },
        None => Err(AppErr(400, String::from(message))),
    }
}

/// Region, realm and name, all of which must be there.
fn required_key(region: Option<String>, realm: Option<String>, name: Option<String>) -> (r: Result<
    (String, String, String),
    AppErr,
>)
    ensures
        match r {
            Ok(key) => {
                &&& absent_param(region, realm, name) is None
                &&& region == Some(key.0)
                &&& realm == Some(key.1)
                &&& name == Some(key.2)
            },
            Err(error) => absent_param(region, realm, name) matches Some(message) && error.says(
                400,
                message,
            ),
        },
{
    let region = match required(region, "Missing `region` parameter") {
        Ok(region) => region,
        Err(error) => {
            return Err(error);
        },
    };
    let realm = match required(realm, "Missing `realm` parameter") {
        Ok(realm) => realm,
        Err(error) => {
            return Err(error);
        },
    };
    match required(name, "Missing `name` parameter") {
        Ok(name) => Ok((region, realm, name)),
        Err(error) => Err(error),
    }
}

/// `POST /update/guild`: which guild to update.
pub fn post_update_guild(params: GuildParams) -> (r: Result<GuildRef, AppErr>)
    ensures
        match r {
            Ok(guild) => {
                &&& absent_param(params.region, params.realm, params.name) is None
                &&& params.region == Some(guild.region)
                &&& params.realm == Some(guild.realm)
                &&& params.name == Some(guild.name)
            },
            Err(error) => absent_param(params.region, params.realm, params.name) matches Some(
                message,
            ) && error.says(400, message),
        },
{
    match required_key(params.region, params.realm, params.name) {
        Ok((region, realm, name)) => Ok(GuildRef { region, realm, name }),
        Err(error) => Err(error),
    }
}

/// `POST /update/character`: which character to update.
pub fn post_update_character(params: CharacterParams) -> (r: Result<CharacterRef, AppErr>)
    ensures
        match r {
            Ok(character) => {
                &&& absent_param(params.region, params.realm, params.name) is None
                &&& params.region == Some(character.region)
                &&& params.realm == Some(character.realm)
                &&& params.name == Some(character.name)
            },
            Err(error) => absent_param(params.region, params.realm, params.name) matches Some(
                message,
            ) && error.says(400, message),
        },
{
    match required_key(params.region, params.realm, params.name) {
        Ok((region, realm, name)) => Ok(CharacterRef { region, realm, name }),
        Err(error) => Err(error),
    }
}

// Answers to updates.

/// A lower-case hexadecimal digit.
pub open spec fn is_hex_digit(c: char) -> bool {
    '0' <= c <= '9' || 'a' <= c <= 'f'
}

/// A random UUID in lower case with hyphens.
pub open spec fn is_request_id(id: Seq<char>) -> bool {
    &&& id.len() == 36
    &&& forall|i: int|
        0 <= i < 36 ==> if i == 8 || i == 13 || i == 18 || i == 23 {
            #[trigger] id[i] == '-'
        } else {
            is_hex_digit(id[i])
        }
    &&& id[14] == '4'
    &&& id[19] == '8' || id[19] == '9' || id[19] == 'a' || id[19] == 'b'
}

/// A new id for a request: `uuid::Uuid::new_v4` and its `to_string`. What is claimed is
/// the form of the text; which id comes out is left to chance.
#[verifier::external_body]
fn new_request_id() -> (r: String)
    ensures
        is_request_id(r@),
{
    uuid::Uuid::new_v4().to_string()
}

/// The id was made for a request.
pub closed spec fn is_made_id(id: Seq<char>) -> bool {
    exists|made: String| #[trigger] call_ensures(new_request_id, (), made) && made@ == id
}

/// Every id that was made came out of a call that made it.
proof fn made_id_was_made(id: Seq<char>) -> (made: String)
    requires
        is_made_id(id),
    ensures
        call_ensures(new_request_id, (), made),
        made@ == id,
        is_request_id(id),
{
    choose|made: String| #[trigger] call_ensures(new_request_id, (), made) && made@ == id
}

impl GuildUpdateResponse {
    /// The answer to the request with the given id.
    pub fn with_id(request_id: String, result: GuildUpdateResult) -> (r: Self)
        ensures
            r.request_id == request_id,
            r.guild.region == result.region,
            r.guild.realm == result.realm,
            r.guild.name == result.name,
            r.members_added == result.members_added,
            r.members_updated == result.members_updated,
            r.members_skipped_fresh == result.members_skipped_fresh,
    {
        GuildUpdateResponse {
            request_id,
            guild: GuildRef { region: result.region, realm: result.realm, name: result.name },
            members_added: result.members_added,
            members_updated: result.members_updated,
            members_skipped_fresh: result.members_skipped_fresh,
        }
    }

    /// The answer to a new request.
    pub fn new(result: GuildUpdateResult) -> (r: Self)
        ensures
            is_request_id(r.request_id@),
            is_made_id(r.request_id@),
            r.guild.region == result.region,
            r.guild.realm == result.realm,
            r.guild.name == result.name,
            r.members_added == result.members_added,
            r.members_updated == result.members_updated,
            r.members_skipped_fresh == result.members_skipped_fresh,
    {
        GuildUpdateResponse::with_id(new_request_id(), result)
    }
}

impl CharacterUpdateResponse {
    /// The answer to the request with the given id.
    pub fn with_id(request_id: String, result: CharacterUpdateResult) -> (r: Self)
        ensures
            r.request_id == request_id,
            r.character.region == result.character.region,
            r.character.realm == result.character.realm,
            r.character.name == result.character.name,
            r.runs_inserted == result.runs_inserted,
            r.runs_ignored == result.runs_ignored,
            !r.rate_limited,
    {
        CharacterUpdateResponse {
            request_id,
            character: CharacterRef {
                region: result.character.region,
                realm: result.character.realm,
                name: result.character.name,
            },
            runs_inserted: result.runs_inserted,
            runs_ignored: result.runs_ignored,
            rate_limited: false,
        }
    }

    /// The answer to a new request.
    pub fn new(result: CharacterUpdateResult) -> (r: Self)
        ensures
            is_request_id(r.request_id@),
            is_made_id(r.request_id@),
            r.character.region == result.character.region,
            r.character.realm == result.character.realm,
            r.character.name == result.character.name,
            r.runs_inserted == result.runs_inserted,
            r.runs_ignored == result.runs_ignored,
            !r.rate_limited,
    {
        CharacterUpdateResponse::with_id(new_request_id(), result)
    }
}

impl UpdateAllResponse {
    /// The answer to the request with the given id.
    pub fn with_id(request_id: String, result: UpdateAllResult) -> (r: Self)
        ensures
            r.request_id == request_id,
            r.total_characters == result.total_characters,
            r.updated_ok == result.updated_ok,
            r.failed == result.failed,
            r.pruned == result.pruned,
            r.errors == result.errors,
    {
        UpdateAllResponse {
            request_id,
            total_characters: result.total_characters,
            updated_ok: result.updated_ok,
            failed: result.failed,
            pruned: result.pruned,
            errors: result.errors,
        }
    }

    /// The answer to a new request.
    pub fn new(result: UpdateAllResult) -> (r: Self)
        ensures
            is_request_id(r.request_id@),
            is_made_id(r.request_id@),
            r.total_characters == result.total_characters,
            r.updated_ok == result.updated_ok,
            r.failed == result.failed,
            r.pruned == result.pruned,
            r.errors == result.errors,
    {
        UpdateAllResponse::with_id(new_request_id(), result)
    }
}

// Characters and players that may not be there.

/// What is said of a character that is not in the database.
pub open spec fn unknown_character(region: Seq<char>, realm: Seq<char>, name: Seq<char>) -> Seq<
    char,
> {
    "Character "@ + name + " on "@ + realm + "-"@ + region + " not found in DB"@
}

fn unknown_character_error(region: &str, realm: &str, name: &str) -> (r: AppErr)
    ensures
        r.says(404, unknown_character(region@, realm@, name@)),
{
    let mut message = join("Character ", name);
    message.append(" on ");
    message.append(realm);
    message.append("-");
    message.append(region);
    message.append(" not found in DB");
    AppErr(404, message)
}

/// What is said of a player that is not in the database.
pub open spec fn unknown_player(player_id: Seq<char>) -> Seq<char> {
    "Player `"@ + player_id + "` not found"@
}

/// `DELETE /character/{region}/{realm}/{name}`: the answer, given whether a character
/// was deleted.
pub fn delete_character(deleted: bool, region: String, realm: String, name: String) -> (r: Result<
    DeleteCharacterResponse,
    AppErr,
>)
    ensures
        match r {
            Ok(answer) => {
                &&& deleted
                &&& answer.deleted
                &&& answer.region == region
                &&& answer.realm == realm
                &&& answer.name == name
            },
            Err(error) => !deleted && error.says(404, unknown_character(region@, realm@, name@)),
        },
{
    if !deleted {
        return Err(unknown_character_error(region.as_str(), realm.as_str(), name.as_str()));
    }
    Ok(DeleteCharacterResponse { deleted: true, region, realm, name })
}

// Time windows of queries.

/// What is said of a time that cannot be read.
pub open spec fn invalid_datetime(raw: Seq<char>, error: Seq<char>) -> Seq<char> {
    "Invalid datetime `"@ + raw + "`: "@ + error
}

/// The time that a parameter gives, or the refusal of one that cannot be read, given how
/// it reads.
pub fn datetime_param(raw: &str, reading: Result<UtcInstant, String>) -> (r: Result<
    UtcInstant,
    AppErr,
>)
    ensures
        match r {
            Ok(at) => reading == Ok::<UtcInstant, String>(at),
            Err(error) => reading matches Err(message) && error.says(
                400,
                invalid_datetime(raw@, message@),
            ),
        },
{
    match reading {
        Ok(at) => Ok(at),
        Err(error) => {
            let mut message = join("Invalid datetime `", raw);
            message.append("`: ");
            message.append(error.as_str());
            Err(AppErr(400, message))
        },
    }
}

/// What is said of an optional time, where it cannot be read.
pub open spec fn datetime_error(param: Option<Seq<char>>) -> Option<Seq<char>> {
    match param {
        Some(raw) => match rfc3339_reading(raw) {
            Ok(_) => None,
            Err(error) => Some(invalid_datetime(raw, error)),
        },
        None => None,
    }
}

/// The time that an optional parameter gives.
pub open spec fn datetime_value(param: Option<Seq<char>>) -> Option<Moment> {
    match param {
        Some(raw) => match rfc3339_reading(raw) {
            Ok(at) => Some(at),
            Err(_) => None,
        },
        None => None,
    }
}

/// The time that an optional parameter gives.
pub fn parse_optional_dt(s: Option<&str>) -> (r: Result<Option<UtcInstant>, AppErr>)
    ensures
        match r {
            Ok(at) => datetime_error(str_text(s)) is None && moment_of(at) == datetime_value(
                str_text(s),
            ),
            Err(error) => datetime_error(str_text(s)) matches Some(message) && error.says(
                400,
                message,
            ),
        },
{
    match s {
        Some(raw) => match datetime_param(raw, parse_rfc3339(raw)) {
            Ok(at) => Ok(Some(at)),
            Err(error) => Err(error),
        },
        None => Ok(None),
    }
}

/// What is said of a query whose window cannot be made: its times are read first, `from`
/// before `to`.
pub open spec fn window_refusal(
    scope: Scope,
    from: Option<Seq<char>>,
    to: Option<Seq<char>>,
) -> Option<Seq<char>> {
    if datetime_error(from) is Some {
        datetime_error(from)
    } else if datetime_error(to) is Some {
        datetime_error(to)
    } else {
        match window_error(scope, datetime_value(from), datetime_value(to)) {
            Some(error) => Some(error.text()),
            None => None,
        }
    }
}

/// `window` is the one of a query at `now`.
pub open spec fn is_query_window(
    window: TimeWindow,
    now: Moment,
    scope: Scope,
    region: Option<Seq<char>>,
    from: Option<Seq<char>>,
    to: Option<Seq<char>>,
) -> bool {
    &&& window_refusal(scope, from, to) is None
    &&& is_window(window, now, scope, region, datetime_value(from), datetime_value(to))
}

fn as_str(s: &Option<String>) -> (r: Option<&str>)
    ensures
        str_text(r) == text_of(*s),
{
    match s {
        Some(s) => Some(s.as_str()),
        None => None,
    }
}

/// The window of a query at `now`.
pub fn query_window_at(
    now: UtcInstant,
    scope: Scope,
    region: Option<&str>,
    from: &Option<String>,
    to: &Option<String>,
) -> (r: Result<TimeWindow, AppErr>)
    requires
        now@.secs >= MIN_SECS + 8 * 86_400,
    ensures
        match r {
            Ok(window) => is_query_window(
                window,
                now@,
                scope,
                str_text(region),
                text_of(*from),
                text_of(*to),
            ),
            Err(error) => window_refusal(scope, text_of(*from), text_of(*to)) matches Some(message)
                && error.says(400, message),
        },
{
    let custom_from = match parse_optional_dt(as_str(from)) {
        Ok(at) => at,
        Err(error) => {
            return Err(error);
        },
    };
    let custom_to = match parse_optional_dt(as_str(to)) {
        Ok(at) => at,
        Err(error) => {
            return Err(error);
        },
    };
    match TimeWindow::resolve_at(now, scope, region, custom_from, custom_to) {
        Ok(window) => Ok(window),
        Err(error) => Err(AppErr(400, error.message())),
    }
}

/// The lowest level to count: every level, where none is given.
pub open spec fn lowest_level(min_level: Option<i64>) -> i64 {
    match min_level {
        Some(level) => level,
        None => 0,
    }
}

fn min_level_of(min_level: Option<i64>) -> (r: i64)
    ensures
        r == lowest_level(min_level),
{
    match min_level {
        Some(level) => level,
        None => 0,
    }
}

/// How many rows to list.
pub open spec fn row_limit(limit: Option<i64>, default: i64, max: i64) -> i64 {
    let wanted = match limit {
        Some(limit) => limit,
        None => default,
    };
    if wanted <= max {
        wanted
    } else {
        max
    }
}

fn limit_of(limit: Option<i64>, default: i64, max: i64) -> (r: i64)
    ensures
        r == row_limit(limit, default, max),
{
    let wanted: i64 = match limit {
        Some(limit) => limit,
        None => default,
    };
    if wanted <= max {
        wanted
    } else {
        max
    }
}

/// A query that was admitted: its window, the lowest level that counts, and the statement
/// that answers it.
#[derive(Debug)]
pub struct QueryPlan {
    pub window: TimeWindow,
    pub min_level: i64,
    pub statement: Statement,
}

// Keys of a character.

/// `r` is how a query for a character's runs goes on at `now`, once the character was
/// looked up.
pub open spec fn plans_character_keys(
    r: Result<QueryPlan, AppErr>,
    found: Option<Character>,
    region: Seq<char>,
    realm: Seq<char>,
    name: Seq<char>,
    query: KeysQuery,
    now: Moment,
) -> bool {
    match (r, found) {
        (Err(error), None) => error.says(404, unknown_character(region, realm, name)),
        (Err(error), Some(_)) => window_refusal(
            query.scope,
            text_of(query.from),
            text_of(query.to),
        ) matches Some(message) && error.says(400, message),
        (Ok(plan), Some(character)) => {
            &&& is_query_window(
                plan.window,
                now,
                query.scope,
                Some(region),
                text_of(query.from),
                text_of(query.to),
            )
            &&& plan.min_level == lowest_level(query.min_level)
            &&& plan.statement.states(
                COUNT_RUNS_FOR_CHARACTER@,
                seq![
                    Bound::Integer(character.id as int),
                    Bound::Instant(plan.window.from@),
                    Bound::Instant(plan.window.to@),
                    Bound::Integer(plan.min_level as int),
                ],
            )
        },
        (Ok(_), None) => false,
    }
}

/// `GET /character/{region}/{realm}/{name}/keys` at `now`, once the character was looked up.
pub fn get_character_keys_at(
    now: UtcInstant,
    found: &Option<Character>,
    region: &str,
    realm: &str,
    name: &str,
    query: &KeysQuery,
) -> (r: Result<QueryPlan, AppErr>)
    requires
        now@.secs >= MIN_SECS + 8 * 86_400,
    ensures
        plans_character_keys(r, *found, region@, realm@, name@, *query, now@),
{
    let character = match found {
        Some(character) => character,
        None => {
            return Err(unknown_character_error(region, realm, name));
        },
    };
    match query_window_at(now, query.scope, Some(region), &query.from, &query.to) {
        Ok(window) => {
            let min_level: i64 = min_level_of(query.min_level);
            let statement = Database::count_runs_for_character(
                character.id,
                window.from,
                window.to,
                min_level,
            );
            Ok(QueryPlan { window, min_level, statement })
        },
        Err(error) => Err(error),
    }
}

/// `GET /character/{region}/{realm}/{name}/keys`, once the character was looked up.
pub fn get_character_keys(
    found: &Option<Character>,
    region: &str,
    realm: &str,
    name: &str,
    query: &KeysQuery,
) -> (r: Result<QueryPlan, AppErr>)
    ensures
        exists|now: Moment|
            now.valid() && now.secs >= 0 && is_clock_reading(now)
                && #[trigger] plans_character_keys(
                r,
                *found,
                region@,
                realm@,
                name@,
                *query,
                now,
            ),
{
    let now = read_clock();
    get_character_keys_at(now, found, region, realm, name, query)
}

// Keys of a player.

/// A query for a player's runs that was admitted. Where the player has no characters
/// there is no statement, and the count is 0.
#[derive(Debug)]
pub struct PlayerQueryPlan {
    pub window: TimeWindow,
    pub min_level: i64,
    pub statement: Option<Statement>,
}

/// `r` is how a query for a player's runs goes on at `now`, once the player and the ids of
/// their characters were looked up.
pub open spec fn plans_player_keys(
    r: Result<PlayerQueryPlan, AppErr>,
    found: Option<Player>,
    player_id: Seq<char>,
    character_ids: Seq<i64>,
    query: KeysQuery,
    now: Moment,
) -> bool {
    match (r, found) {
        (Err(error), None) => error.says(404, unknown_player(player_id)),
        (Err(error), Some(_)) => window_refusal(
            query.scope,
            text_of(query.from),
            text_of(query.to),
        ) matches Some(message) && error.says(400, message),
        (Ok(plan), Some(_)) => {
            &&& is_query_window(
                plan.window,
                now,
                query.scope,
                None,
                text_of(query.from),
                text_of(query.to),
            )
            &&& plan.min_level == lowest_level(query.min_level)
            &&& counts_runs(plan.statement, character_ids, plan.window, plan.min_level)
        },
        (Ok(_), None) => false,
    }
}

/// `GET /player/{player_id}/keys` at `now`, once the player and the ids of their characters
/// were looked up.
pub fn get_player_keys_at(
    now: UtcInstant,
    found: &Option<Player>,
    player_id: &str,
    character_ids: &[i64],
    query: &KeysQuery,
) -> (r: Result<PlayerQueryPlan, AppErr>)
    requires
        now@.secs >= MIN_SECS + 8 * 86_400,
    ensures
        plans_player_keys(r, *found, player_id@, character_ids@, *query, now@),
{
    if found.is_none() {
        let mut message = join("Player `", player_id);
        message.append("` not found");
        return Err(AppErr(404, message));
    }
    match query_window_at(now, query.scope, None, &query.from, &query.to) {
        Ok(window) => {
            let min_level: i64 = min_level_of(query.min_level);
            let statement = Database::count_runs_for_characters(
                character_ids,
                window.from,
                window.to,
                min_level,
            );
            Ok(PlayerQueryPlan { window, min_level, statement })
        },
        Err(error) => Err(error),
    }
}

/// `GET /player/{player_id}/keys`, once the player and the ids of their characters were
/// looked up.
pub fn get_player_keys(
    found: &Option<Player>,
    player_id: &str,
    character_ids: &[i64],
    query: &KeysQuery,
) -> (r: Result<PlayerQueryPlan, AppErr>)
    ensures
        exists|now: Moment|
            now.valid() && now.secs >= 0 && is_clock_reading(now) && #[trigger] plans_player_keys(
                r,
                *found,
                player_id@,
                character_ids@,
                *query,
                now,
            ),
{
    let now = read_clock();
    get_player_keys_at(now, found, player_id, character_ids, query)
}

// The leaderboard.

/// `r` is how a query for the leaderboard goes on at `now`; its statement lists the
/// characters of no player.
pub open spec fn plans_leaderboard(
    r: Result<QueryPlan, AppErr>,
    query: KeysQuery,
    now: Moment,
) -> bool {
    match r {
        Ok(plan) => {
            &&& is_query_window(
                plan.window,
                now,
                query.scope,
                Some("us"@),
                text_of(query.from),
                text_of(query.to),
            )
            &&& plan.min_level == lowest_level(query.min_level)
            &&& plan.statement.states(
                UNTRACKED_RUNS@,
                seq![
                    Bound::Instant(plan.window.from@),
                    Bound::Instant(plan.window.to@),
                    Bound::Integer(plan.min_level as int),
                ],
            )
        },
        Err(error) => window_refusal(
            query.scope,
            text_of(query.from),
            text_of(query.to),
        ) matches Some(message) && error.says(400, message),
    }
}

/// `GET /leaderboard` at `now`.
pub fn get_leaderboard_at(now: UtcInstant, query: &KeysQuery) -> (r: Result<QueryPlan, AppErr>)
    requires
        now@.secs >= MIN_SECS + 8 * 86_400,
    ensures
        plans_leaderboard(r, *query, now@),
{
    match query_window_at(now, query.scope, Some("us"), &query.from, &query.to) {
        Ok(window) => {
            let min_level: i64 = min_level_of(query.min_level);
            let statement = Database::get_untracked_runs(window.from, window.to, min_level);
            Ok(QueryPlan { window, min_level, statement })
        },
        Err(error) => Err(error),
    }
}

/// `GET /leaderboard`.
pub fn get_leaderboard(query: &KeysQuery) -> (r: Result<QueryPlan, AppErr>)
    ensures
        exists|now: Moment|
            now.valid() && now.secs >= 0 && is_clock_reading(now)
                && #[trigger] plans_leaderboard(r, *query, now),
{
    let now = read_clock();
    get_leaderboard_at(now, query)
}

// Debug pages.

/// `r` is how a query for the latest runs goes on at `now`.
pub open spec fn plans_debug_runs(
    r: Result<QueryPlan, AppErr>,
    query: DebugRunsQuery,
    now: Moment,
) -> bool {
    match r {
        Ok(plan) => {
            &&& is_query_window(
                plan.window,
                now,
                query.scope,
                text_of(query.region),
                text_of(query.from),
                text_of(query.to),
            )
            &&& plan.min_level == lowest_level(query.min_level)
            &&& plan.statement.states(
                LIST_RUNS@,
                seq![
                    Bound::Instant(plan.window.from@),
                    Bound::Instant(plan.window.to@),
                    Bound::Integer(plan.min_level as int),
                    Bound::Integer(row_limit(query.limit, 200, 1_000) as int),
                ],
            )
        },
        Err(error) => window_refusal(
            query.scope,
            text_of(query.from),
            text_of(query.to),
        ) matches Some(message) && error.says(400, message),
    }
}

/// `GET /debug/runs` at `now`.
pub fn get_debug_runs_at(now: UtcInstant, query: &DebugRunsQuery) -> (r: Result<QueryPlan, AppErr>)
    requires
        now@.secs >= MIN_SECS + 8 * 86_400,
    ensures
        plans_debug_runs(r, *query, now@),
{
    match query_window_at(now, query.scope, as_str(&query.region), &query.from, &query.to) {
        Ok(window) => {
            let min_level: i64 = min_level_of(query.min_level);
            let limit: i64 = limit_of(query.limit, 200, 1_000);
            let statement = Database::list_runs(window.from, window.to, min_level, limit);
            Ok(QueryPlan { window, min_level, statement })
        },
        Err(error) => Err(error),
    }
}

/// `GET /debug/runs`.
pub fn get_debug_runs(query: &DebugRunsQuery) -> (r: Result<QueryPlan, AppErr>)
    ensures
        exists|now: Moment|
            now.valid() && now.secs >= 0 && is_clock_reading(now)
                && #[trigger] plans_debug_runs(r, *query, now),
{
    let now = read_clock();
    get_debug_runs_at(now, query)
}

/// What is said of the first parameter of a guild's runs that is absent. The region may be.
pub open spec fn absent_guild_param(query: GuildRunsQuery) -> Option<Seq<char>> {
    if is_absent(query.realm) {
        Some("Missing `realm` parameter"@)
    } else if is_absent(query.name) {
        Some("Missing `name` parameter"@)
    } else {
        None
    }
}

/// `r` is how a query for a guild's latest runs goes on at `now`.
pub open spec fn plans_debug_guild_runs(
    r: Result<QueryPlan, AppErr>,
    query: GuildRunsQuery,
    now: Moment,
) -> bool {
    match (r, absent_guild_param(query)) {
        (Err(error), Some(message)) => error.says(400, message),
        (Err(error), None) => window_refusal(
            query.scope,
            text_of(query.from),
            text_of(query.to),
        ) matches Some(message) && error.says(400, message),
        (Ok(plan), None) => {
            &&& is_query_window(
                plan.window,
                now,
                query.scope,
                text_of(query.region),
                text_of(query.from),
                text_of(query.to),
            )
            &&& plan.min_level == lowest_level(query.min_level)
            &&& plan.statement.states(
                LIST_RUNS_FOR_GUILD@,
                seq![
                    Bound::Text(query.name->0@),
                    Bound::Text(query.realm->0@),
                    Bound::Instant(plan.window.from@),
                    Bound::Instant(plan.window.to@),
                    Bound::Integer(plan.min_level as int),
                    Bound::Integer(row_limit(query.limit, 500, 2_000) as int),
                ],
            )
        },
        (Ok(_), Some(_)) => false,
    }
}

/// `GET /debug/runs/guild` at `now`.
pub fn get_debug_guild_runs_at(now: UtcInstant, query: &GuildRunsQuery) -> (r: Result<
    QueryPlan,
    AppErr,
>)
    requires
        now@.secs >= MIN_SECS + 8 * 86_400,
    ensures
        plans_debug_guild_runs(r, *query, now@),
{
    let realm = match required(query.realm.clone(), "Missing `realm` parameter") {
        Ok(realm) => realm,
        Err(error) => {
            return Err(error);
        },
    };
    let name = match required(query.name.clone(), "Missing `name` parameter") {
        Ok(name) => name,
        Err(error) => {
            return Err(error);
        },
    };
    match query_window_at(now, query.scope, as_str(&query.region), &query.from, &query.to) {
        Ok(window) => {
            let min_level: i64 = min_level_of(query.min_level);
            let limit: i64 = limit_of(query.limit, 500, 2_000);
            let statement = Database::list_runs_for_guild(
                name.as_str(),
                realm.as_str(),
                window.from,
                window.to,
                min_level,
                limit,
            );
            Ok(QueryPlan { window, min_level, statement })
        },
        Err(error) => Err(error),
    }
}

/// `GET /debug/runs/guild`.
pub fn get_debug_guild_runs(query: &GuildRunsQuery) -> (r: Result<QueryPlan, AppErr>)
    ensures
        exists|now: Moment|
            now.valid() && now.secs >= 0 && is_clock_reading(now)
                && #[trigger] plans_debug_guild_runs(r, *query, now),
{
    let now = read_clock();
    get_debug_guild_runs_at(now, query)
}

/// A query for depletions that was admitted.
#[derive(Debug)]
pub struct DepletionsPlan {
    pub window: TimeWindow,
    pub statement: Statement,
}

/// `r` is how a query for depletions goes on at `now`.
pub open spec fn plans_debug_depletions(
    r: Result<DepletionsPlan, AppErr>,
    query: DebugRunsQuery,
    now: Moment,
) -> bool {
    match r {
        Ok(plan) => {
            &&& is_query_window(
                plan.window,
                now,
                query.scope,
                text_of(query.region),
                text_of(query.from),
                text_of(query.to),
            )
            &&& plan.statement.states(
                GET_DEPLETIONS@,
                seq![
                    Bound::Instant(plan.window.from@),
                    Bound::Instant(plan.window.to@),
                    Bound::Integer(row_limit(query.limit, 50, 200) as int),
                ],
            )
        },
        Err(error) => window_refusal(
            query.scope,
            text_of(query.from),
            text_of(query.to),
        ) matches Some(message) && error.says(400, message),
    }
}

/// `GET /debug/depletions` at `now`.
pub fn get_debug_depletions_at(now: UtcInstant, query: &DebugRunsQuery) -> (r: Result<
    DepletionsPlan,
    AppErr,
>)
    requires
        now@.secs >= MIN_SECS + 8 * 86_400,
    ensures
        plans_debug_depletions(r, *query, now@),
{
    match query_window_at(now, query.scope, as_str(&query.region), &query.from, &query.to) {
        Ok(window) => {
            let limit: i64 = limit_of(query.limit, 50, 200);
            let statement = Database::get_depletions(window.from, window.to, limit);
            Ok(DepletionsPlan { window, statement })
        },
        Err(error) => Err(error),
    }
}

/// `GET /debug/depletions`.
pub fn get_debug_depletions(query: &DebugRunsQuery) -> (r: Result<DepletionsPlan, AppErr>)
    ensures
        exists|now: Moment|
            now.valid() && now.secs >= 0 && is_clock_reading(now)
                && #[trigger] plans_debug_depletions(r, *query, now),
{
    let now = read_clock();
    get_debug_depletions_at(now, query)
}

// Answers to queries.

/// A scope and its window in words.
#[derive(Debug)]
pub struct WindowText {
    pub scope: String,
    pub from: String,
    pub to: String,
}

impl WindowText {
    /// Writes down a scope and its window.
    pub fn new(scope: Scope, window: &TimeWindow) -> (r: Self)
        ensures
            r.scope@ == scope.text(),
            r.from@ == rfc3339_text(window.from@),
            r.to@ == rfc3339_text(window.to@),
    {
        WindowText {
            scope: scope.name(),
            from: to_rfc3339(&window.from),
            to: to_rfc3339(&window.to),
        }
    }
}

impl CharacterKeysResponse {
    pub fn new(character: CharacterRef, window: WindowText, min_level: i64, count: i64) -> (r: Self)
        ensures
            r.character == character,
            r.scope == window.scope,
            r.from == window.from,
            r.to == window.to,
            r.min_level == min_level,
            r.count == count,
    {
        CharacterKeysResponse {
            character,
            scope: window.scope,
            from: window.from,
            to: window.to,
            min_level,
            count,
        }
    }
}

impl PlayerKeysResponse {
    pub fn new(
        player_id: String,
        player: Player,
        window: WindowText,
        min_level: i64,
        count: i64,
    ) -> (r: Self)
        ensures
            r.player_id == player_id,
            r.label == player.label,
            r.scope == window.scope,
            r.from == window.from,
            r.to == window.to,
            r.min_level == min_level,
            r.count == count,
    {
        PlayerKeysResponse {
            player_id,
            label: player.label,
            scope: window.scope,
            from: window.from,
            to: window.to,
            min_level,
            count,
        }
    }
}

impl LeaderboardResponse {
    pub fn new(window: WindowText, min_level: i64, entries: Vec<LeaderboardEntry>) -> (r: Self)
        ensures
            r.scope == window.scope,
            r.from == window.from,
            r.to == window.to,
            r.min_level == min_level,
            r.entries == entries,
    {
        LeaderboardResponse {
            scope: window.scope,
            from: window.from,
            to: window.to,
            min_level,
            entries,
        }
    }
}

impl DepletionsResponse {
    pub fn new(window: WindowText, entries: Vec<DepletionEntry>) -> (r: Self)
        ensures
            r.scope == window.scope,
            r.from == window.from,
            r.to == window.to,
            r.entries == entries,
    {
        DepletionsResponse { scope: window.scope, from: window.from, to: window.to, entries }
    }
}

/// `GET /guild/{region}/{realm}/{name}/roster`: the answer, once the members were looked up.
pub fn get_guild_roster(members: &[Character], region: String, realm: String, name: String) -> (r:
    RosterResponse)
    ensures
        r.guild.region == region,
        r.guild.realm == realm,
        r.guild.name == name,
        r.members@.len() == members@.len(),
        forall|i: int|
            0 <= i < members@.len() ==> #[trigger] r.members@[i]@ == (SummaryText {
                region: members@[i].region@,
                realm: members@[i].realm@,
                name: members@[i].name@,
                guild_name: text_of(members@[i].guild_name),
            }),
{
    let mut summaries: Vec<CharacterSummary> = Vec::new();
    let mut i: usize = 0;
    while i < members.len()
        invariant
            i <= members@.len(),
            summaries@.len() == i,
            forall|j: int|
                0 <= j < i ==> #[trigger] summaries@[j]@ == (SummaryText {
                    region: members@[j].region@,
                    realm: members@[j].realm@,
                    name: members@[j].name@,
                    guild_name: text_of(members@[j].guild_name),
                }),
        decreases members@.len() - i,
    {
        summaries.push(CharacterSummary::from(&members[i]));
        i = i + 1;
    }
    RosterResponse { guild: GuildRef { region, realm, name }, members: summaries }
}

/// `GET /health`.
pub fn get_health() -> (r: HealthResponse)
    ensures
        r.status@ == "ok"@,
        r.version@ == "0.1.0"@,
{
    HealthResponse { status: "ok", version: "0.1.0" }
}

/// `GET /debug/hash-check`: the answer, given whether there is such a run.
pub fn get_debug_hash_check(query: HashCheckQuery, exists_run: bool) -> (r: HashCheckResponse)
    ensures
        r.hash == query.hash,
        r.exists == exists_run,
{
    HashCheckResponse { hash: query.hash, exists: exists_run }
}

/// `GET /players`: the answer, once the players and their characters were looked up.
pub fn get_players(all: &[(Player, Vec<i64>)]) -> (r: PlayersResponse)
    ensures
        r.players@.len() == all@.len(),
        forall|i: int|
            0 <= i < all@.len() ==> {
                &&& (#[trigger] r.players@[i]).id@ == all@[i].0.id@
                &&& r.players@[i].label@ == all@[i].0.label@
                &&& r.players@[i].character_count == all@[i].1@.len()
            },
{
    let mut players: Vec<PlayerEntry> = Vec::new();
    let mut i: usize = 0;
    while i < all.len()
        invariant
            i <= all@.len(),
            players@.len() == i,
            forall|j: int|
                0 <= j < i ==> {
                    &&& (#[trigger] players@[j]).id@ == all@[j].0.id@
                    &&& players@[j].label@ == all@[j].0.label@
                    &&& players@[j].character_count == all@[j].1@.len()
                },
        decreases all@.len() - i,
    {
        let entry = &all[i];
        players.push(
            PlayerEntry {
                id: entry.0.id.clone(),
                label: entry.0.label.clone(),
                character_count: entry.1.len(),
            },
        );
        i = i + 1;
    }
    PlayersResponse { players }
}

// What the answers promise.

/// A made id has the form of a random UUID: 36 characters, hyphens at four places, a 4 for
/// the version, lower-case hexadecimal digits in the rest.
pub proof fn made_ids_are_random_uuids(id: Seq<char>)
    requires
        is_made_id(id),
    ensures
        id.len() == 36,
        id[8] == '-' && id[13] == '-' && id[18] == '-' && id[23] == '-',
        id[14] == '4',
        id[19] == '8' || id[19] == '9' || id[19] == 'a' || id[19] == 'b',
        forall|i: int|
            0 <= i < 36 && i != 8 && i != 13 && i != 18 && i != 23 ==> '0' <= #[trigger] id[i]
                <= '9' || 'a' <= id[i] <= 'f',
{
    let made = made_id_was_made(id);
    assert(id[8] == '-' && id[13] == '-' && id[18] == '-' && id[23] == '-');
}

/// Nothing is said of parameters exactly where each is there and holds a character. Otherwise
/// the first that is not is named.
pub proof fn absent_parameters_are_named_in_turn(
    region: Option<String>,
    realm: Option<String>,
    name: Option<String>,
)
    ensures
        absent_param(region, realm, name) is None <==> {
            &&& region is Some && region->0@.len() > 0
            &&& realm is Some && realm->0@.len() > 0
            &&& name is Some && name->0@.len() > 0
        },
        region is None || region->0@ == Seq::<char>::empty() ==> absent_param(region, realm, name)
            == Some("Missing `region` parameter"@),
        region is Some && region->0@.len() > 0 && (realm is None || realm->0@
            == Seq::<char>::empty()) ==> absent_param(region, realm, name) == Some(
            "Missing `realm` parameter"@,
        ),
        region is Some && region->0@.len() > 0 && realm is Some && realm->0@.len() > 0 && (
        name is None || name->0@ == Seq::<char>::empty()) ==> absent_param(region, realm, name)
            == Some("Missing `name` parameter"@),
{
}

/// What is said of a character or a player that is not there names it in full.
pub proof fn unknown_subjects_are_named(
    region: Seq<char>,
    realm: Seq<char>,
    name: Seq<char>,
    player_id: Seq<char>,
)
    ensures
        unknown_character(region, realm, name) == "Character "@ + name + " on "@ + realm + "-"@
            + region + " not found in DB"@,
        unknown_player(player_id) == "Player `"@ + player_id + "` not found"@,
{
}

/// A time that is not given is none, one that can be read is what it reads as, and one that
/// cannot is refused with its own text and what is wrong with it.
pub proof fn given_times_are_read(param: Option<Seq<char>>)
    ensures
        param is None ==> datetime_error(param) is None && datetime_value(param) is None,
        param matches Some(raw) ==> match rfc3339_reading(raw) {
            Ok(at) => datetime_error(param) is None && datetime_value(param) == Some(at),
            Err(error) => datetime_error(param) == Some(
                "Invalid datetime `"@ + raw + "`: "@ + error,
            ),
        },
{
}

/// A query is refused for its window exactly where one of its times is given and cannot be
/// read, or its scope is a custom one and a time is missing or `from` is after `to`. The
/// first of these is what is said.
pub proof fn windows_are_refused_in_turn(
    scope: Scope,
    from: Option<Seq<char>>,
    to: Option<Seq<char>>,
)
    ensures
        ({
            let refusal = window_refusal(scope, from, to);
            let start = rfc3339_reading(from->0);
            let end = rfc3339_reading(to->0);
            &&& from is Some && start is Err ==> refusal == Some(
                "Invalid datetime `"@ + from->0 + "`: "@ + start->Err_0,
            )
            &&& (from is None || start is Ok) && to is Some && end is Err ==> refusal == Some(
                "Invalid datetime `"@ + to->0 + "`: "@ + end->Err_0,
            )
            &&& (from is None || start is Ok) && (to is None || end is Ok) ==> {
                &&& scope != Scope::Custom ==> refusal is None
                &&& scope == Scope::Custom && from is None ==> refusal == Some(
                    "scope=custom requires `from` parameter"@,
                )
                &&& scope == Scope::Custom && from is Some && to is None ==> refusal == Some(
                    "scope=custom requires `to` parameter"@,
                )
                &&& scope == Scope::Custom && from is Some && to is Some ==> {
                    let late = start->Ok_0.secs > end->Ok_0.secs || (start->Ok_0.secs
                        == end->Ok_0.secs && start->Ok_0.nanos > end->Ok_0.nanos);
                    &&& late ==> refusal == Some("`from` must be before `to`"@)
                    &&& !late ==> refusal is None
                }
            }
        }),
{
}

/// A level that is not given is 0. A number of rows is the one given or else the page's own,
/// and never more than the page allows.
pub proof fn levels_and_limits_have_defaults(
    min_level: Option<i64>,
    limit: Option<i64>,
    default: i64,
    max: i64,
)
    requires
        default <= max,
    ensures
        min_level is None ==> lowest_level(min_level) == 0,
        min_level is Some ==> lowest_level(min_level) == min_level->0,
        row_limit(limit, default, max) <= max,
        limit is None ==> row_limit(limit, default, max) == default,
        limit is Some && limit->0 <= max ==> row_limit(limit, default, max) == limit->0,
        limit is Some && limit->0 > max ==> row_limit(limit, default, max) == max,
{
}

/// A character that is not there is answered with 404 before its window is looked at. A query
/// that is admitted counts the character's timed runs in its window, with the weeks of the
/// character's own region, from the lowest level on.
pub proof fn character_keys_are_counted_in_the_window(
    r: Result<QueryPlan, AppErr>,
    found: Option<Character>,
    region: Seq<char>,
    realm: Seq<char>,
    name: Seq<char>,
    query: KeysQuery,
    now: Moment,
)
    requires
        plans_character_keys(r, found, region, realm, name, query, now),
    ensures
        found is None ==> (r matches Err(error) && error.0 == 404 && error.1@ == "Character "@
            + name + " on "@ + realm + "-"@ + region + " not found in DB"@),
        found is Some ==> (r matches Err(error) ==> error.0 == 400 && window_refusal(
            query.scope,
            text_of(query.from),
            text_of(query.to),
        ) == Some(error.1@)),
        r matches Ok(plan) ==> {
            &&& found is Some
            &&& window_refusal(
                query.scope,
                text_of(query.from),
                text_of(query.to),
            ) is None
            &&& is_window(
                plan.window,
                now,
                query.scope,
                Some(region),
                datetime_value(text_of(query.from)),
                datetime_value(text_of(query.to)),
            )
            &&& query.min_level is Some ==> plan.min_level == query.min_level->0
            &&& query.min_level is None ==> plan.min_level == 0
            &&& plan.statement.sql@ == COUNT_RUNS_FOR_CHARACTER@
            &&& plan.statement.values@.len() == 4
            &&& plan.statement.values@[0] == SqlValue::Integer(found->0.id)
            &&& plan.statement.values@[1] matches SqlValue::Instant(at) && at@
                == plan.window.from@
            &&& plan.statement.values@[2] matches SqlValue::Instant(at) && at@
                == plan.window.to@
            &&& plan.statement.values@[3] == SqlValue::Integer(plan.min_level)
        },
{
    if let Ok(plan) = r {
        let bound = seq![
            Bound::Integer(found->0.id as int),
            Bound::Instant(plan.window.from@),
            Bound::Instant(plan.window.to@),
            Bound::Integer(plan.min_level as int),
        ];
        values_are_bound_in_order(plan.statement, COUNT_RUNS_FOR_CHARACTER@, bound);
        assert(bound[0] == Bound::Integer(found->0.id as int));
        assert(bound[1] == Bound::Instant(plan.window.from@));
        assert(bound[2] == Bound::Instant(plan.window.to@));
        assert(bound[3] == Bound::Integer(plan.min_level as int));
    }
}

/// A player that is not there is answered with 404 before the window is looked at. A query
/// that is admitted counts the timed runs of all the player's characters in its window, with
/// the weeks of `us`, from the lowest level on.
pub proof fn player_keys_are_counted_over_all_characters(
    r: Result<PlayerQueryPlan, AppErr>,
    found: Option<Player>,
    player_id: Seq<char>,
    character_ids: Seq<i64>,
    query: KeysQuery,
    now: Moment,
)
    requires
        plans_player_keys(r, found, player_id, character_ids, query, now),
    ensures
        found is None ==> (r matches Err(error) && error.0 == 404 && error.1@ == "Player `"@
            + player_id + "` not found"@),
        found is Some ==> (r matches Err(error) ==> error.0 == 400 && window_refusal(
            query.scope,
            text_of(query.from),
            text_of(query.to),
        ) == Some(error.1@)),
        r matches Ok(plan) ==> {
            &&& found is Some
            &&& window_refusal(
                query.scope,
                text_of(query.from),
                text_of(query.to),
            ) is None
            &&& is_window(
                plan.window,
                now,
                query.scope,
                None,
                datetime_value(text_of(query.from)),
                datetime_value(text_of(query.to)),
            )
            &&& query.min_level is Some ==> plan.min_level == query.min_level->0
            &&& query.min_level is None ==> plan.min_level == 0
            &&& plan.statement is None <==> character_ids.len() == 0
            &&& plan.statement matches Some(statement) ==> {
                let n = character_ids.len() as int;
                &&& statement.values@.len() == n + 3
                &&& forall|i: int|
                    0 <= i < n ==> #[trigger] statement.values@[i] == SqlValue::Integer(
                        character_ids[i],
                    )
                &&& statement.values@[n] matches SqlValue::Instant(at) && at@ == plan.window.from@
                &&& statement.values@[n + 1] matches SqlValue::Instant(at) && at@
                    == plan.window.to@
                &&& statement.values@[n + 2] == SqlValue::Integer(plan.min_level)
            }
        },
{
    if let Ok(plan) = r {
        runs_are_counted_for_each_id(plan.statement, character_ids, plan.window, plan.min_level);
    }
}

/// A query for the leaderboard that is admitted has the weeks of `us` and lists the characters
/// of no player with their timed runs in its window, from the lowest level on.
pub proof fn leaderboard_takes_the_weeks_of_us(
    r: Result<QueryPlan, AppErr>,
    query: KeysQuery,
    now: Moment,
)
    requires
        plans_leaderboard(r, query, now),
    ensures
        r matches Err(error) ==> error.0 == 400 && window_refusal(
            query.scope,
            text_of(query.from),
            text_of(query.to),
        ) == Some(error.1@),
        r matches Ok(plan) ==> {
            &&& window_refusal(
                query.scope,
                text_of(query.from),
                text_of(query.to),
            ) is None
            &&& is_window(
                plan.window,
                now,
                query.scope,
                Some("us"@),
                datetime_value(text_of(query.from)),
                datetime_value(text_of(query.to)),
            )
            &&& query.min_level is Some ==> plan.min_level == query.min_level->0
            &&& query.min_level is None ==> plan.min_level == 0
            &&& plan.statement.sql@ == UNTRACKED_RUNS@
            &&& plan.statement.values@.len() == 3
            &&& plan.statement.values@[0] matches SqlValue::Instant(at) && at@
                == plan.window.from@
            &&& plan.statement.values@[1] matches SqlValue::Instant(at) && at@
                == plan.window.to@
            &&& plan.statement.values@[2] == SqlValue::Integer(plan.min_level)
        },
{
    if let Ok(plan) = r {
        let bound = seq![
            Bound::Instant(plan.window.from@),
            Bound::Instant(plan.window.to@),
            Bound::Integer(plan.min_level as int),
        ];
        values_are_bound_in_order(plan.statement, UNTRACKED_RUNS@, bound);
        assert(bound[0] == Bound::Instant(plan.window.from@));
        assert(bound[1] == Bound::Instant(plan.window.to@));
        assert(bound[2] == Bound::Integer(plan.min_level as int));
    }
}

/// A query for the latest runs that is admitted lists those of its window from the lowest level
/// on: 200 where nothing is said, and never more than 1000.
pub proof fn debug_runs_are_up_to_a_thousand(
    r: Result<QueryPlan, AppErr>,
    query: DebugRunsQuery,
    now: Moment,
)
    requires
        plans_debug_runs(r, query, now),
    ensures
        r matches Err(error) ==> error.0 == 400 && window_refusal(
            query.scope,
            text_of(query.from),
            text_of(query.to),
        ) == Some(error.1@),
        r matches Ok(plan) ==> {
            &&& window_refusal(
                query.scope,
                text_of(query.from),
                text_of(query.to),
            ) is None
            &&& is_window(
                plan.window,
                now,
                query.scope,
                text_of(query.region),
                datetime_value(text_of(query.from)),
                datetime_value(text_of(query.to)),
            )
            &&& query.min_level is Some ==> plan.min_level == query.min_level->0
            &&& query.min_level is None ==> plan.min_level == 0
            &&& plan.statement.sql@ == LIST_RUNS@
            &&& plan.statement.values@.len() == 4
            &&& plan.statement.values@[0] matches SqlValue::Instant(at) && at@
                == plan.window.from@
            &&& plan.statement.values@[1] matches SqlValue::Instant(at) && at@
                == plan.window.to@
            &&& plan.statement.values@[2] == SqlValue::Integer(plan.min_level)
            &&& plan.statement.values@[3] matches SqlValue::Integer(limit) && limit <= 1_000 && (
            query.limit is None ==> limit == 200) && (query.limit is Some && query.limit->0 <= 1_000
                ==> limit == query.limit->0) && (query.limit is Some && query.limit->0 > 1_000
                ==> limit == 1_000)
        },
{
    if let Ok(plan) = r {
        let bound = seq![
            Bound::Instant(plan.window.from@),
            Bound::Instant(plan.window.to@),
            Bound::Integer(plan.min_level as int),
            Bound::Integer(row_limit(query.limit, 200, 1_000) as int),
        ];
        values_are_bound_in_order(plan.statement, LIST_RUNS@, bound);
        assert(bound[0] == Bound::Instant(plan.window.from@));
        assert(bound[1] == Bound::Instant(plan.window.to@));
        assert(bound[2] == Bound::Integer(plan.min_level as int));
        assert(bound[3] == Bound::Integer(row_limit(query.limit, 200, 1_000) as int));
    }
}

/// A query for a guild's latest runs needs the guild's realm and name, in this order. One that
/// is admitted lists the runs of the guild's members in its window from the lowest level on:
/// 500 where nothing is said, and never more than 2000.
pub proof fn guild_runs_are_up_to_two_thousand(
    r: Result<QueryPlan, AppErr>,
    query: GuildRunsQuery,
    now: Moment,
)
    requires
        plans_debug_guild_runs(r, query, now),
    ensures
        query.realm is None || query.realm->0@.len() == 0 ==> (r matches Err(error) && error.0
            == 400 && error.1@ == "Missing `realm` parameter"@),
        query.realm is Some && query.realm->0@.len() > 0 && (query.name is None
            || query.name->0@.len() == 0) ==> (r matches Err(error) && error.0 == 400 && error.1@
            == "Missing `name` parameter"@),
        query.realm is Some && query.realm->0@.len() > 0 && query.name is Some
            && query.name->0@.len() > 0 ==> (r matches Err(error) ==> error.0 == 400
            && window_refusal(query.scope, text_of(query.from), text_of(query.to)) == Some(
            error.1@,
        )),
        r matches Ok(plan) ==> {
            &&& query.realm is Some && query.realm->0@.len() > 0
            &&& query.name is Some && query.name->0@.len() > 0
            &&& window_refusal(
                query.scope,
                text_of(query.from),
                text_of(query.to),
            ) is None
            &&& is_window(
                plan.window,
                now,
                query.scope,
                text_of(query.region),
                datetime_value(text_of(query.from)),
                datetime_value(text_of(query.to)),
            )
            &&& query.min_level is Some ==> plan.min_level == query.min_level->0
            &&& query.min_level is None ==> plan.min_level == 0
            &&& plan.statement.sql@ == LIST_RUNS_FOR_GUILD@
            &&& plan.statement.values@.len() == 6
            &&& plan.statement.values@[0] matches SqlValue::Text(text) && text@
                == query.name->0@
            &&& plan.statement.values@[1] matches SqlValue::Text(text) && text@
                == query.realm->0@
            &&& plan.statement.values@[2] matches SqlValue::Instant(at) && at@
                == plan.window.from@
            &&& plan.statement.values@[3] matches SqlValue::Instant(at) && at@
                == plan.window.to@
            &&& plan.statement.values@[4] == SqlValue::Integer(plan.min_level)
            &&& plan.statement.values@[5] matches SqlValue::Integer(limit) && limit <= 2_000 && (
            query.limit is None ==> limit == 500) && (query.limit is Some && query.limit->0 <= 2_000
                ==> limit == query.limit->0) && (query.limit is Some && query.limit->0 > 2_000
                ==> limit == 2_000)
        },
{
    if let Ok(plan) = r {
        let bound = seq![
            Bound::Text(query.name->0@),
            Bound::Text(query.realm->0@),
            Bound::Instant(plan.window.from@),
            Bound::Instant(plan.window.to@),
            Bound::Integer(plan.min_level as int),
            Bound::Integer(row_limit(query.limit, 500, 2_000) as int),
        ];
        values_are_bound_in_order(plan.statement, LIST_RUNS_FOR_GUILD@, bound);
        assert(bound[0] == Bound::Text(query.name->0@));
        assert(bound[1] == Bound::Text(query.realm->0@));
        assert(bound[2] == Bound::Instant(plan.window.from@));
        assert(bound[3] == Bound::Instant(plan.window.to@));
        assert(bound[4] == Bound::Integer(plan.min_level as int));
        assert(bound[5] == Bound::Integer(row_limit(query.limit, 500, 2_000) as int));
    }
}

/// A query for depletions that is admitted lists the characters with depleted runs in its
/// window: 50 where nothing is said, and never more than 200.
pub proof fn depletions_are_up_to_two_hundred(
    r: Result<DepletionsPlan, AppErr>,
    query: DebugRunsQuery,
    now: Moment,
)
    requires
        plans_debug_depletions(r, query, now),
    ensures
        r matches Err(error) ==> error.0 == 400 && window_refusal(
            query.scope,
            text_of(query.from),
            text_of(query.to),
        ) == Some(error.1@),
        r matches Ok(plan) ==> {
            &&& window_refusal(
                query.scope,
                text_of(query.from),
                text_of(query.to),
            ) is None
            &&& is_window(
                plan.window,
                now,
                query.scope,
                text_of(query.region),
                datetime_value(text_of(query.from)),
                datetime_value(text_of(query.to)),
            )
            &&& plan.statement.sql@ == GET_DEPLETIONS@
            &&& plan.statement.values@.len() == 3
            &&& plan.statement.values@[0] matches SqlValue::Instant(at) && at@
                == plan.window.from@
            &&& plan.statement.values@[1] matches SqlValue::Instant(at) && at@
                == plan.window.to@
            &&& plan.statement.values@[2] matches SqlValue::Integer(limit) && limit <= 200 && (
            query.limit is None ==> limit == 50) && (query.limit is Some && query.limit->0 <= 200
                ==> limit == query.limit->0) && (query.limit is Some && query.limit->0 > 200
                ==> limit == 200)
        },
{
    if let Ok(plan) = r {
        let bound = seq![
            Bound::Instant(plan.window.from@),
            Bound::Instant(plan.window.to@),
            Bound::Integer(row_limit(query.limit, 50, 200) as int),
        ];
        values_are_bound_in_order(plan.statement, GET_DEPLETIONS@, bound);
        assert(bound[0] == Bound::Instant(plan.window.from@));
        assert(bound[1] == Bound::Instant(plan.window.to@));
        assert(bound[2] == Bound::Integer(row_limit(query.limit, 50, 200) as int));
    }
}

/// Unless it is a custom one, the window of a query for a character's runs ends when the clock
/// is read, and one for today starts at that day's midnight.
pub proof fn character_keys_go_up_to_the_clock(
    found: &Option<Character>,
    region: &str,
    realm: &str,
    name: &str,
    query: &KeysQuery,
    r: Result<QueryPlan, AppErr>,
) -> (now: Moment)
    requires
        call_ensures(get_character_keys, (found, region, realm, name, query), r),
    ensures
        is_clock_reading(now),
        now.secs >= 0,
        r matches Ok(plan) ==> query.scope != Scope::Custom ==> plan.window.to@ == now,
        r matches Ok(plan) ==> query.scope == Scope::Today ==> plan.window.from@ == (Moment {
            secs: now.secs - now.secs % 86_400,
            nanos: 0,
        }),
{
    choose|now: Moment|
        now.valid() && now.secs >= 0 && is_clock_reading(now)
            && #[trigger] plans_character_keys(r, *found, region@, realm@, name@, *query, now)
}

/// Unless it is a custom one, the window of a query for a player's runs ends when the clock is
/// read, and one for today starts at that day's midnight.
pub proof fn player_keys_go_up_to_the_clock(
    found: &Option<Player>,
    player_id: &str,
    character_ids: &[i64],
    query: &KeysQuery,
    r: Result<PlayerQueryPlan, AppErr>,
) -> (now: Moment)
    requires
        call_ensures(get_player_keys, (found, player_id, character_ids, query), r),
    ensures
        is_clock_reading(now),
        now.secs >= 0,
        r matches Ok(plan) ==> query.scope != Scope::Custom ==> plan.window.to@ == now,
        r matches Ok(plan) ==> query.scope == Scope::Today ==> plan.window.from@ == (Moment {
            secs: now.secs - now.secs % 86_400,
            nanos: 0,
        }),
{
    choose|now: Moment|
        now.valid() && now.secs >= 0 && is_clock_reading(now)
            && #[trigger] plans_player_keys(r, *found, player_id@, character_ids@, *query, now)
}

/// Unless it is a custom one, the window of a query for the leaderboard ends when the clock is
/// read, and one for today starts at that day's midnight.
pub proof fn leaderboard_goes_up_to_the_clock(
    query: &KeysQuery,
    r: Result<QueryPlan, AppErr>,
) -> (now: Moment)
    requires
        call_ensures(get_leaderboard, (query,), r),
    ensures
        is_clock_reading(now),
        now.secs >= 0,
        r matches Ok(plan) ==> query.scope != Scope::Custom ==> plan.window.to@ == now,
        r matches Ok(plan) ==> query.scope == Scope::Today ==> plan.window.from@ == (Moment {
            secs: now.secs - now.secs % 86_400,
            nanos: 0,
        }),
{
    choose|now: Moment|
        now.valid() && now.secs >= 0 && is_clock_reading(now)
            && #[trigger] plans_leaderboard(r, *query, now)
}

/// Unless it is a custom one, the window of a query for the latest runs ends when the clock is
/// read, and one for today starts at that day's midnight.
pub proof fn debug_runs_go_up_to_the_clock(
    query: &DebugRunsQuery,
    r: Result<QueryPlan, AppErr>,
) -> (now: Moment)
    requires
        call_ensures(get_debug_runs, (query,), r),
    ensures
        is_clock_reading(now),
        now.secs >= 0,
        r matches Ok(plan) ==> query.scope != Scope::Custom ==> plan.window.to@ == now,
        r matches Ok(plan) ==> query.scope == Scope::Today ==> plan.window.from@ == (Moment {
            secs: now.secs - now.secs % 86_400,
            nanos: 0,
        }),
{
    choose|now: Moment|
        now.valid() && now.secs >= 0 && is_clock_reading(now)
            && #[trigger] plans_debug_runs(r, *query, now)
}

/// Unless it is a custom one, the window of a query for a guild's latest runs ends when the
/// clock is read, and one for today starts at that day's midnight.
pub proof fn guild_runs_go_up_to_the_clock(
    query: &GuildRunsQuery,
    r: Result<QueryPlan, AppErr>,
) -> (now: Moment)
    requires
        call_ensures(get_debug_guild_runs, (query,), r),
    ensures
        is_clock_reading(now),
        now.secs >= 0,
        r matches Ok(plan) ==> query.scope != Scope::Custom ==> plan.window.to@ == now,
        r matches Ok(plan) ==> query.scope == Scope::Today ==> plan.window.from@ == (Moment {
            secs: now.secs - now.secs % 86_400,
            nanos: 0,
        }),
{
    choose|now: Moment|
        now.valid() && now.secs >= 0 && is_clock_reading(now)
            && #[trigger] plans_debug_guild_runs(r, *query, now)
}

/// Unless it is a custom one, the window of a query for depletions ends when the clock is
/// read, and one for today starts at that day's midnight.
pub proof fn depletions_go_up_to_the_clock(
    query: &DebugRunsQuery,
    r: Result<DepletionsPlan, AppErr>,
) -> (now: Moment)
    requires
        call_ensures(get_debug_depletions, (query,), r),
    ensures
        is_clock_reading(now),
        now.secs >= 0,
        r matches Ok(plan) ==> query.scope != Scope::Custom ==> plan.window.to@ == now,
        r matches Ok(plan) ==> query.scope == Scope::Today ==> plan.window.from@ == (Moment {
            secs: now.secs - now.secs % 86_400,
            nanos: 0,
        }),
{
    choose|now: Moment|
        now.valid() && now.secs >= 0 && is_clock_reading(now)
            && #[trigger] plans_debug_depletions(r, *query, now)
}

} // verus!
