//! The statements that the service runs against its SQLite database, and what it makes of
//! their results.

use crate::handlers::DebugRun;
use crate::instant::{
    is_clock_reading, minus_days, read_clock, rfc3339_text, to_rfc3339, Moment, UtcInstant,
    MIN_SECS,
};
use crate::models::{text_of, Run};
use crate::service::{tally, CharacterKey};
use crate::tables::Tables;
use crate::text::{join, starts_with, str_text};
use crate::time_window::{midnight, start_of_day, TimeWindow};
use vstd::prelude::*;

verus! {

/// A value to bind to a statement.
#[derive(Debug)]
pub enum SqlValue {
    Text(String),
    OptionalText(Option<String>),
    Integer(i64),
    Instant(UtcInstant),
}

/// What an `SqlValue` holds.
pub enum Bound {
    Text(Seq<char>),
    OptionalText(Option<Seq<char>>),
    Integer(int),
    Instant(Moment),
}

impl View for SqlValue {
    type V = Bound;

    open spec fn view(&self) -> Bound {
        match self {
            SqlValue::Text(text) => Bound::Text(text@),
            SqlValue::OptionalText(text) => Bound::OptionalText(text_of(*text)),
            SqlValue::Integer(n) => Bound::Integer(*n as int),
            SqlValue::Instant(at) => Bound::Instant(at@),
        }
    }
}

/// A statement with the values for its placeholders, in order.
#[derive(Debug)]
pub struct Statement {
    pub sql: String,
    pub values: Vec<SqlValue>,
}

impl Statement {
    /// What is bound to the placeholders.
    pub open spec fn bound(self) -> Seq<Bound> {
        Seq::new(self.values@.len(), |i: int| self.values@[i]@)
    }

    /// The statement says `sql` and binds `bound`.
    pub open spec fn states(self, sql: Seq<char>, bound: Seq<Bound>) -> bool {
        self.sql@ == sql && self.bound() =~= bound
    }
}

fn text(s: &str) -> (r: SqlValue)
    ensures
        r@ == Bound::Text(s@),
{
    SqlValue::Text(String::from(s))
}

fn optional_text(s: Option<&str>) -> (r: SqlValue)
    ensures
        r@ == Bound::OptionalText(str_text(s)),
{
    match s {
        Some(s) => SqlValue::OptionalText(Some(String::from(s))),
        None => SqlValue::OptionalText(None),
    }
}

fn owned_text(s: &Option<String>) -> (r: SqlValue)
    ensures
        r@ == Bound::OptionalText(text_of(*s)),
{
    match s {
        Some(s) => SqlValue::OptionalText(Some(s.clone())),
        None => SqlValue::OptionalText(None),
    }
}

fn statement(sql: &str, values: Vec<SqlValue>) -> (r: Statement)
    ensures
        r.sql@ == sql@,
        r.values == values,
{
    Statement { sql: String::from(sql), values }
}

/// Inserts a character, or updates the one there; a guild that is not given stays as it was.
pub const UPSERT_CHARACTER: &'static str =
    "INSERT INTO characters (region, realm, name, guild_name, guild_realm, last_seen) \
     VALUES (?, ?, ?, ?, ?, ?) \
     ON CONFLICT (region, realm, name) DO UPDATE SET \
     guild_name = COALESCE(excluded.guild_name, guild_name), \
     guild_realm = COALESCE(excluded.guild_realm, guild_realm), \
     last_seen = excluded.last_seen \
     RETURNING id";

/// The id of a character.
pub const FIND_CHARACTER_ID: &'static str =
    "SELECT id FROM characters WHERE region=? AND realm=? AND name=?";

/// A character.
pub const GET_CHARACTER: &'static str =
    "SELECT id, region, realm, name, guild_name, guild_realm, last_seen \
     FROM characters WHERE region=? AND realm=? AND name=?";

/// All characters.
pub const LIST_ALL_CHARACTERS: &'static str =
    "SELECT id, region, realm, name, guild_name, guild_realm, last_seen FROM characters";

/// Inserts a player, or updates the label of the one there.
pub const UPSERT_PLAYER: &'static str =
    "INSERT INTO players (id, label) VALUES (?, ?) \
     ON CONFLICT (id) DO UPDATE SET label = excluded.label";

/// Links a character to a player, unless it is linked already.
pub const LINK_PLAYER_CHARACTER: &'static str =
    "INSERT OR IGNORE INTO player_characters (player_id, character_id) VALUES (?, ?)";

/// A player.
pub const GET_PLAYER: &'static str = "SELECT id, label FROM players WHERE id=?";

/// The ids of a player's characters.
pub const GET_PLAYER_CHARACTER_IDS: &'static str =
    "SELECT character_id FROM player_characters WHERE player_id=?";

/// Inserts a run, unless one with its hash is there.
pub const INSERT_RUN: &'static str =
    "INSERT INTO runs \
     (character_id, dungeon_short, key_level, completed_at, within_time, \
     season, url, source_run_id, hash) \
     VALUES (?, ?, ?, ?, ?, ?, ?, ?, ?) \
     ON CONFLICT (hash) DO NOTHING";

/// Counts the timed runs of a character in a time window.
pub const COUNT_RUNS_FOR_CHARACTER: &'static str =
    "SELECT COUNT(*) FROM runs \
     WHERE character_id=? AND completed_at BETWEEN ? AND ? \
     AND key_level >= ? AND within_time = 1";

/// Counts the timed runs of some characters in a time window: up to the placeholders of
/// their ids.
pub const COUNT_RUNS_BEFORE_IDS: &'static str =
    "SELECT COUNT(*) FROM runs WHERE character_id IN (";

/// Counts the timed runs of some characters in a time window: from the placeholders of
/// their ids on.
pub const COUNT_RUNS_AFTER_IDS: &'static str =
    ") AND completed_at BETWEEN ? AND ? \
     AND key_level >= ? AND within_time = 1";

/// The characters of a guild.
pub const GET_GUILD_MEMBERS: &'static str =
    "SELECT id, region, realm, name, guild_name, guild_realm, last_seen \
     FROM characters WHERE guild_name=? AND guild_realm=?";

/// The latest timed runs in a time window, with their characters.
pub const LIST_RUNS: &'static str =
    "SELECT r.id, c.name, c.realm, c.region, \
     r.dungeon_short, r.key_level, r.completed_at, \
     r.within_time, r.url, r.hash \
     FROM runs r \
     JOIN characters c ON c.id = r.character_id \
     WHERE r.completed_at BETWEEN ? AND ? \
     AND r.key_level >= ? \
     AND r.within_time = 1 \
     ORDER BY r.completed_at DESC \
     LIMIT ?";

/// The latest timed runs of a guild's characters in a time window.
pub const LIST_RUNS_FOR_GUILD: &'static str =
    "SELECT r.id, c.name, c.realm, c.region, \
     r.dungeon_short, r.key_level, r.completed_at, \
     r.within_time, r.url, r.hash \
     FROM runs r \
     JOIN characters c ON c.id = r.character_id \
     WHERE c.guild_name = ? AND c.guild_realm = ? \
     AND r.completed_at BETWEEN ? AND ? \
     AND r.key_level >= ? \
     AND r.within_time = 1 \
     ORDER BY r.completed_at DESC \
     LIMIT ?";

/// All characters with the number of their timed runs, most first.
pub const LIST_ALL_CHARACTERS_DEBUG: &'static str =
    "SELECT c.id, c.region, c.realm, c.name, \
     c.guild_name, c.guild_realm, \
     c.last_seen, \
     COUNT(r.id) AS run_count \
     FROM characters c \
     LEFT JOIN runs r ON r.character_id = c.id AND r.within_time = 1 \
     GROUP BY c.id \
     ORDER BY run_count DESC";

/// The number of characters.
pub const COUNT_CHARACTERS: &'static str = "SELECT COUNT(*) FROM characters";

/// The number of timed runs.
pub const COUNT_RUNS: &'static str = "SELECT COUNT(*) FROM runs WHERE within_time = 1";

/// The number of timed runs since a given time.
pub const COUNT_RUNS_SINCE: &'static str =
    "SELECT COUNT(*) FROM runs WHERE completed_at >= ? AND within_time = 1";

/// The number of timed runs in each dungeon, most first.
pub const RUNS_BY_DUNGEON: &'static str =
    "SELECT dungeon_short, COUNT(*) AS cnt FROM runs \
     WHERE within_time = 1 GROUP BY dungeon_short ORDER BY cnt DESC";

/// The number of timed runs of each level, highest level first.
pub const RUNS_BY_KEYLEVEL: &'static str =
    "SELECT key_level, COUNT(*) AS cnt FROM runs \
     WHERE within_time = 1 GROUP BY key_level ORDER BY key_level DESC";

/// The characters with the most timed runs.
pub const TOP_CHARACTERS: &'static str =
    "SELECT c.name, c.realm, c.region, COUNT(r.id) AS cnt \
     FROM runs r \
     JOIN characters c ON c.id = r.character_id \
     WHERE r.within_time = 1 \
     GROUP BY c.id \
     ORDER BY cnt DESC \
     LIMIT 20";

/// A row where there is a run with a given hash.
pub const RUN_HASH_EXISTS: &'static str = "SELECT 1 FROM runs WHERE hash=? LIMIT 1";

/// All players, by label.
pub const GET_ALL_PLAYERS: &'static str = "SELECT id, label FROM players ORDER BY label";

/// The characters with the most depleted runs in a time window.
pub const GET_DEPLETIONS: &'static str =
    "SELECT c.name, c.realm, c.region, \
     COUNT(r.id) AS depleted_count \
     FROM runs r \
     JOIN characters c ON c.id = r.character_id \
     WHERE r.within_time = 0 \
     AND r.completed_at BETWEEN ? AND ? \
     GROUP BY c.id \
     ORDER BY depleted_count DESC \
     LIMIT ?";

/// The characters that belong to no player and have timed runs in a time window.
pub const UNTRACKED_RUNS: &'static str =
    "SELECT c.id, c.name, c.realm, c.region, \
     COUNT(r.id) AS run_count \
     FROM characters c \
     LEFT JOIN runs r \
     ON r.character_id = c.id \
     AND r.within_time = 1 \
     AND r.completed_at BETWEEN ? AND ? \
     AND r.key_level >= ? \
     WHERE c.id NOT IN ( \
     SELECT character_id FROM player_characters \
     ) \
     GROUP BY c.id \
     HAVING run_count > 0 \
     ORDER BY run_count DESC";

/// Deletes a character; its runs go with it.
pub const DELETE_CHARACTER: &'static str =
    "DELETE FROM characters WHERE region=? AND realm=? AND name=?";

/// Whether a statement changed anything, from the number of rows that it changed.
pub fn changed_rows(rows_affected: u64) -> (r: bool)
    ensures
        r == (rows_affected > 0),
{
    rows_affected > 0
}

/// The number of runs that a statement counted; none, where there was no statement to run.
pub fn counted_runs(count: Option<i64>) -> (r: i64)
    ensures
        r == match count {
            Some(count) => count,
            None => 0,
        },
{
    match count {
        Some(count) => count,
        None => 0,
    }
}

/// As many placeholders, separated by commas.
pub open spec fn placeholders(n: nat) -> Seq<char>
    decreases n,
{
    if n == 0 {
        Seq::empty()
    } else if n == 1 {
        "?"@
    } else {
        placeholders((n - 1) as nat) + ",?"@
    }
}

/// `statement` inserts or updates a character at `now`.
pub open spec fn upserts_character(
    statement: Statement,
    region: Seq<char>,
    realm: Seq<char>,
    name: Seq<char>,
    guild_name: Option<Seq<char>>,
    guild_realm: Option<Seq<char>>,
    now: Moment,
) -> bool {
    statement.states(
        UPSERT_CHARACTER@,
        seq![
            Bound::Text(region),
            Bound::Text(realm),
            Bound::Text(name),
            Bound::OptionalText(guild_name),
            Bound::OptionalText(guild_realm),
            Bound::Instant(now),
        ],
    )
}

/// `statement` counts the timed runs of some characters in a window. There is one where
/// there are characters.
pub open spec fn counts_runs(
    statement: Option<Statement>,
    character_ids: Seq<i64>,
    window: TimeWindow,
    min_level: i64,
) -> bool {
    match statement {
        Some(statement) => character_ids.len() > 0 && statement.states(
            COUNT_RUNS_BEFORE_IDS@ + placeholders(character_ids.len()) + COUNT_RUNS_AFTER_IDS@,
            Seq::new(character_ids.len(), |i: int| Bound::Integer(character_ids[i] as int)) + seq![
                Bound::Instant(window.from@),
                Bound::Instant(window.to@),
                Bound::Integer(min_level as int),
            ],
        ),
        None => character_ids.len() == 0,
    }
}

/// How to open the database.
#[derive(Debug)]
pub struct Connection {
    pub url: String,
    pub max_connections: u32,
    /// Statements to run on the open database.
    pub pragmas: Vec<Statement>,
}

/// The URL under which SQLite opens a database: a path opens the file at it, which is
/// made where it is missing.
pub open spec fn sqlite_url(database_url: Seq<char>) -> Seq<char> {
    if "sqlite:"@.is_prefix_of(database_url) {
        database_url
    } else {
        "sqlite:"@ + database_url + "?mode=rwc"@
    }
}

/// The statements behind the statistics on the debug page.
#[derive(Debug)]
pub struct StatsStatements {
    pub total_characters: Statement,
    pub total_runs: Statement,
    pub runs_today: Statement,
    pub runs_this_week: Statement,
    pub runs_by_dungeon: Statement,
    pub runs_by_keylevel: Statement,
    pub top_characters: Statement,
}

/// `stats` asks for the statistics, with today taken at `today` and the week ending at
/// `week_end`.
pub open spec fn asks_for_stats(stats: StatsStatements, today: Moment, week_end: Moment) -> bool {
    &&& stats.total_characters.states(COUNT_CHARACTERS@, Seq::empty())
    &&& stats.total_runs.states(COUNT_RUNS@, Seq::empty())
    &&& stats.runs_today.states(COUNT_RUNS_SINCE@, seq![Bound::Instant(midnight(today))])
    &&& stats.runs_this_week.states(
        COUNT_RUNS_SINCE@,
        seq![Bound::Instant(Moment { secs: week_end.secs - 7 * 86_400, nanos: week_end.nanos })],
    )
    &&& stats.runs_by_dungeon.states(RUNS_BY_DUNGEON@, Seq::empty())
    &&& stats.runs_by_keylevel.states(RUNS_BY_KEYLEVEL@, Seq::empty())
    &&& stats.top_characters.states(TOP_CHARACTERS@, Seq::empty())
}

/// The SQLite database of the service.
pub struct Database;

impl Database {
    /// How to open the database at a path or a URL.
    pub fn connect(database_url: &str) -> (r: Connection)
        ensures
            r.url@ == sqlite_url(database_url@),
            r.max_connections == 5,
            r.pragmas@.len() == 2,
            r.pragmas@[0].states("PRAGMA journal_mode=WAL"@, Seq::empty()),
            r.pragmas@[1].states("PRAGMA foreign_keys=ON"@, Seq::empty()),
    {
        let url = if starts_with(database_url, "sqlite:") {
            String::from(database_url)
        } else {
            let mut url = join("sqlite:", database_url);
            url.append("?mode=rwc");
            url
        };
        let mut pragmas: Vec<Statement> = Vec::new();
        pragmas.push(statement("PRAGMA journal_mode=WAL", Vec::new()));
        pragmas.push(statement("PRAGMA foreign_keys=ON", Vec::new()));
        Connection { url, max_connections: 5, pragmas }
    }

    /// Asks for the statistics on the debug page, with today taken at `today` and the week
    /// ending at `week_end`.
    pub fn get_debug_stats_at(today: UtcInstant, week_end: UtcInstant) -> (r: StatsStatements)
        requires
            week_end@.secs >= MIN_SECS + 7 * 86_400,
            week_end@.nanos < 1_000_000_000,
        ensures
            asks_for_stats(r, today@, week_end@),
    {
        let today_start = match start_of_day(&today) {
            Some(midnight) => midnight,
            None => today,
        };
        let week_start = minus_days(&week_end, 7);
        StatsStatements {
            total_characters: statement(COUNT_CHARACTERS, Vec::new()),
            total_runs: statement(COUNT_RUNS, Vec::new()),
            runs_today: statement(COUNT_RUNS_SINCE, vec![SqlValue::Instant(today_start)]),
            runs_this_week: statement(COUNT_RUNS_SINCE, vec![SqlValue::Instant(week_start)]),
            runs_by_dungeon: statement(RUNS_BY_DUNGEON, Vec::new()),
            runs_by_keylevel: statement(RUNS_BY_KEYLEVEL, Vec::new()),
            top_characters: statement(TOP_CHARACTERS, Vec::new()),
        }
    }

    /// Asks for the statistics on the debug page.
    pub fn get_debug_stats() -> (r: StatsStatements)
        ensures
            exists|today: Moment, week_end: Moment|
                today.valid() && week_end.valid() && is_clock_reading(today)
                    && is_clock_reading(week_end)
                    && #[trigger] asks_for_stats(r, today, week_end),
    {
        let today = read_clock();
        let week_end = read_clock();
        Database::get_debug_stats_at(today, week_end)
    }

    /// Inserts or updates a character at `now`; the answer is its id.
    pub fn upsert_character_at(
        region: &str,
        realm: &str,
        name: &str,
        guild_name: Option<&str>,
        guild_realm: Option<&str>,
        now: UtcInstant,
    ) -> (r: Statement)
        ensures
            upserts_character(
                r,
                region@,
                realm@,
                name@,
                str_text(guild_name),
                str_text(guild_realm),
                now@,
            ),
    {
        statement(
            UPSERT_CHARACTER,
            vec![
                text(region),
                text(realm),
                text(name),
                optional_text(guild_name),
                optional_text(guild_realm),
                SqlValue::Instant(now),
            ],
        )
    }

    /// Inserts or updates a character now; the answer is its id.
    pub fn upsert_character(
        region: &str,
        realm: &str,
        name: &str,
        guild_name: Option<&str>,
        guild_realm: Option<&str>,
    ) -> (r: Statement)
        ensures
            exists|now: Moment|
                now.valid() && is_clock_reading(now) && #[trigger] upserts_character(
                    r,
                    region@,
                    realm@,
                    name@,
                    str_text(guild_name),
                    str_text(guild_realm),
                    now,
                ),
    {
        let now = read_clock();
        Database::upsert_character_at(region, realm, name, guild_name, guild_realm, now)
    }

    /// Looks up the id of a character.
    pub fn find_character_id(region: &str, realm: &str, name: &str) -> (r: Statement)
        ensures
            r.states(
                FIND_CHARACTER_ID@,
                seq![
                    Bound::Text(region@),
                    Bound::Text(realm@),
                    Bound::Text(name@),
                ],
            ),
    {
        statement(FIND_CHARACTER_ID, vec![text(region), text(realm), text(name)])
    }

    /// Looks up a character.
    pub fn get_character(region: &str, realm: &str, name: &str) -> (r: Statement)
        ensures
            r.states(
                GET_CHARACTER@,
                seq![
                    Bound::Text(region@),
                    Bound::Text(realm@),
                    Bound::Text(name@),
                ],
            ),
    {
        statement(GET_CHARACTER, vec![text(region), text(realm), text(name)])
    }

    /// Lists all characters.
    pub fn list_all_characters() -> (r: Statement)
        ensures
            r.states(LIST_ALL_CHARACTERS@, Seq::empty()),
    {
        statement(LIST_ALL_CHARACTERS, Vec::new())
    }

    /// Inserts a player, or updates the label.
    pub fn upsert_player(id: &str, label: &str) -> (r: Statement)
        ensures
            r.states(UPSERT_PLAYER@, seq![Bound::Text(id@), Bound::Text(label@)]),
    {
        statement(UPSERT_PLAYER, vec![text(id), text(label)])
    }

    /// Links a character to a player.
    pub fn link_player_character(player_id: &str, character_id: i64) -> (r: Statement)
        ensures
            r.states(
                LINK_PLAYER_CHARACTER@,
                seq![
                    Bound::Text(player_id@),
                    Bound::Integer(character_id as int),
                ],
            ),
    {
        statement(LINK_PLAYER_CHARACTER, vec![text(player_id), SqlValue::Integer(character_id)])
    }

    /// Looks up a player.
    pub fn get_player(player_id: &str) -> (r: Statement)
        ensures
            r.states(GET_PLAYER@, seq![Bound::Text(player_id@)]),
    {
        statement(GET_PLAYER, vec![text(player_id)])
    }

    /// Lists the ids of a player's characters.
    pub fn get_player_character_ids(player_id: &str) -> (r: Statement)
        ensures
            r.states(GET_PLAYER_CHARACTER_IDS@, seq![Bound::Text(player_id@)]),
    {
        statement(GET_PLAYER_CHARACTER_IDS, vec![text(player_id)])
    }

    /// Inserts a run, unless one with its hash is there.
    pub fn insert_run(run: &Run) -> (r: Statement)
        ensures
            r.states(
                INSERT_RUN@,
                seq![
                    Bound::Integer(run.character_id as int),
                    Bound::Text(run.dungeon_short@),
                    Bound::Integer(run.key_level as int),
                    Bound::Instant(run.completed_at@),
                    Bound::Integer(
                        if run.within_time {
                            1
                        } else {
                            0
                        },
                    ),
                    Bound::OptionalText(text_of(run.season)),
                    Bound::OptionalText(text_of(run.url)),
                    Bound::OptionalText(text_of(run.source_run_id)),
                    Bound::Text(run.hash@),
                ],
            ),
    {
        let within_time: i64 = if run.within_time {
            1
        } else {
            0
        };
        statement(
            INSERT_RUN,
            vec![
                SqlValue::Integer(run.character_id),
                text(run.dungeon_short.as_str()),
                SqlValue::Integer(run.key_level),
                SqlValue::Instant(run.completed_at),
                SqlValue::Integer(within_time),
                owned_text(&run.season),
                owned_text(&run.url),
                owned_text(&run.source_run_id),
                text(run.hash.as_str()),
            ],
        )
    }

    /// Counts the timed runs of a character in a time window.
    pub fn count_runs_for_character(
        character_id: i64,
        from: UtcInstant,
        to: UtcInstant,
        min_level: i64,
    ) -> (r: Statement)
        ensures
            r.states(
                COUNT_RUNS_FOR_CHARACTER@,
                seq![
                    Bound::Integer(character_id as int),
                    Bound::Instant(from@),
                    Bound::Instant(to@),
                    Bound::Integer(min_level as int),
                ],
            ),
    {
        statement(
            COUNT_RUNS_FOR_CHARACTER,
            vec![
                SqlValue::Integer(character_id),
                SqlValue::Instant(from),
                SqlValue::Instant(to),
                SqlValue::Integer(min_level),
            ],
        )
    }

    /// Counts the timed runs of some characters in a time window. With no characters there is
    /// nothing to ask: the count is 0.
    pub fn count_runs_for_characters(
        character_ids: &[i64],
        from: UtcInstant,
        to: UtcInstant,
        min_level: i64,
    ) -> (r: Option<Statement>)
        ensures
            counts_runs(r, character_ids@, TimeWindow { from, to }, min_level),
    {
        if character_ids.len() == 0 {
            return None;
        }
        let mut sql = join(COUNT_RUNS_BEFORE_IDS, "?");
        let mut values: Vec<SqlValue> = vec![SqlValue::Integer(character_ids[0])];
        let mut i: usize = 1;
        while i < character_ids.len()
            invariant
                1 <= i <= character_ids@.len(),
                sql@ == COUNT_RUNS_BEFORE_IDS@ + placeholders(i as nat),
                values@.len() == i,
                forall|j: int|
                    0 <= j < i ==> #[trigger] values@[j]@ == Bound::Integer(
                        character_ids@[j] as int,
                    ),
            decreases character_ids@.len() - i,
        {
            sql.append(",?");
            values.push(SqlValue::Integer(character_ids[i]));
            i = i + 1;
            assert(sql@ == COUNT_RUNS_BEFORE_IDS@ + placeholders(i as nat));
        }
        sql.append(COUNT_RUNS_AFTER_IDS);
        values.push(SqlValue::Instant(from));
        values.push(SqlValue::Instant(to));
        values.push(SqlValue::Integer(min_level));
        Some(Statement { sql, values })
    }

    /// Lists the characters of a guild.
    pub fn get_guild_members(guild_name: &str, guild_realm: &str) -> (r: Statement)
        ensures
            r.states(GET_GUILD_MEMBERS@, seq![Bound::Text(guild_name@), Bound::Text(guild_realm@)]),
    {
        statement(GET_GUILD_MEMBERS, vec![text(guild_name), text(guild_realm)])
    }

    /// Lists the latest timed runs in a time window.
    pub fn list_runs(
        from: UtcInstant,
        to: UtcInstant,
        min_level: i64,
        limit: i64,
    ) -> (r: Statement)
        ensures
            r.states(
                LIST_RUNS@,
                seq![
                    Bound::Instant(from@),
                    Bound::Instant(to@),
                    Bound::Integer(min_level as int),
                    Bound::Integer(limit as int),
                ],
            ),
    {
        statement(
            LIST_RUNS,
            vec![
                SqlValue::Instant(from),
                SqlValue::Instant(to),
                SqlValue::Integer(min_level),
                SqlValue::Integer(limit),
            ],
        )
    }

    /// Lists the latest timed runs of a guild's characters in a time window.
    pub fn list_runs_for_guild(
        guild_name: &str,
        guild_realm: &str,
        from: UtcInstant,
        to: UtcInstant,
        min_level: i64,
        limit: i64,
    ) -> (r: Statement)
        ensures
            r.states(
                LIST_RUNS_FOR_GUILD@,
                seq![
                    Bound::Text(guild_name@),
                    Bound::Text(guild_realm@),
                    Bound::Instant(from@),
                    Bound::Instant(to@),
                    Bound::Integer(min_level as int),
                    Bound::Integer(limit as int),
                ],
            ),
    {
        statement(
            LIST_RUNS_FOR_GUILD,
            vec![
                text(guild_name),
                text(guild_realm),
                SqlValue::Instant(from),
                SqlValue::Instant(to),
                SqlValue::Integer(min_level),
                SqlValue::Integer(limit),
            ],
        )
    }

    /// Lists all characters with the number of their timed runs.
    pub fn list_all_characters_debug() -> (r: Statement)
        ensures
            r.states(LIST_ALL_CHARACTERS_DEBUG@, Seq::empty()),
    {
        statement(LIST_ALL_CHARACTERS_DEBUG, Vec::new())
    }

    /// Asks for a run with the given hash.
    pub fn run_hash_exists(hash: &str) -> (r: Statement)
        ensures
            r.states(RUN_HASH_EXISTS@, seq![Bound::Text(hash@)]),
    {
        statement(RUN_HASH_EXISTS, vec![text(hash)])
    }

    /// Lists all players.
    pub fn get_all_players() -> (r: Statement)
        ensures
            r.states(GET_ALL_PLAYERS@, Seq::empty()),
    {
        statement(GET_ALL_PLAYERS, Vec::new())
    }

    /// Lists the characters with the most depleted runs in a time window.
    pub fn get_depletions(from: UtcInstant, to: UtcInstant, limit: i64) -> (r: Statement)
        ensures
            r.states(
                GET_DEPLETIONS@,
                seq![
                    Bound::Instant(from@),
                    Bound::Instant(to@),
                    Bound::Integer(limit as int),
                ],
            ),
    {
        statement(
            GET_DEPLETIONS,
            vec![
                SqlValue::Instant(from),
                SqlValue::Instant(to),
                SqlValue::Integer(limit),
            ],
        )
    }

    /// Lists the characters of no player with their timed runs in a time window.
    pub fn get_untracked_runs(from: UtcInstant, to: UtcInstant, min_level: i64) -> (r: Statement)
        ensures
            r.states(
                UNTRACKED_RUNS@,
                seq![
                    Bound::Instant(from@),
                    Bound::Instant(to@),
                    Bound::Integer(min_level as int),
                ],
            ),
    {
        statement(
            UNTRACKED_RUNS,
            vec![
                SqlValue::Instant(from),
                SqlValue::Instant(to),
                SqlValue::Integer(min_level),
            ],
        )
    }

    /// Deletes a character.
    pub fn delete_character(region: &str, realm: &str, name: &str) -> (r: Statement)
        ensures
            r.states(
                DELETE_CHARACTER@,
                seq![
                    Bound::Text(region@),
                    Bound::Text(realm@),
                    Bound::Text(name@),
                ],
            ),
    {
        statement(DELETE_CHARACTER, vec![text(region), text(realm), text(name)])
    }
}

/// A row of the statements that list runs.
#[derive(Debug)]
pub struct RunRow {
    pub id: i64,
    pub character_name: String,
    pub realm: String,
    pub region: String,
    pub dungeon_short: String,
    pub key_level: i64,
    pub completed_at: UtcInstant,
    pub within_time: i64,
    pub url: Option<String>,
    pub hash: String,
}

/// `run` shows a row whose time is written as `completed_at`.
pub open spec fn shows_run(run: DebugRun, row: RunRow, completed_at: Seq<char>) -> bool {
    &&& run.id == row.id
    &&& run.character_name@ == row.character_name@
    &&& run.realm@ == row.realm@
    &&& run.region@ == row.region@
    &&& run.dungeon_short@ == row.dungeon_short@
    &&& run.key_level == row.key_level
    &&& run.completed_at@ == completed_at
    &&& run.within_time == (row.within_time != 0)
    &&& text_of(run.url) == text_of(row.url)
    &&& run.hash@ == row.hash@
}

impl RunRow {
    /// The run of a row, with its time written as `completed_at`.
    pub fn into_run_with(self, completed_at: String) -> (r: DebugRun)
        ensures
            shows_run(r, self, completed_at@),
    {
        DebugRun {
            id: self.id,
            character_name: self.character_name,
            realm: self.realm,
            region: self.region,
            dungeon_short: self.dungeon_short,
            key_level: self.key_level,
            completed_at,
            within_time: self.within_time != 0,
            url: self.url,
            hash: self.hash,
        }
    }

    /// The run of a row.
    pub fn into_run(self) -> (r: DebugRun)
        ensures
            shows_run(r, self, rfc3339_text(self.completed_at@)),
    {
        let completed_at = to_rfc3339(&self.completed_at);
        self.into_run_with(completed_at)
    }
}

/// A row of the statement that lists all characters with their runs.
#[derive(Debug)]
pub struct CharacterRow {
    pub id: i64,
    pub region: String,
    pub realm: String,
    pub name: String,
    pub guild_name: Option<String>,
    pub guild_realm: Option<String>,
    pub last_seen: Option<UtcInstant>,
    pub run_count: i64,
}

/// A character as the debug page shows it.
#[derive(Debug)]
pub struct DebugCharacter {
    pub id: i64,
    pub region: String,
    pub realm: String,
    pub name: String,
    pub guild_name: Option<String>,
    pub guild_realm: Option<String>,
    pub last_seen: Option<String>,
    pub run_count: i64,
}

/// `character` shows a row whose time is written as `last_seen`.
pub open spec fn shows_character(
    character: DebugCharacter,
    row: CharacterRow,
    last_seen: Option<Seq<char>>,
) -> bool {
    &&& character.id == row.id
    &&& character.region@ == row.region@
    &&& character.realm@ == row.realm@
    &&& character.name@ == row.name@
    &&& text_of(character.guild_name) == text_of(row.guild_name)
    &&& text_of(character.guild_realm) == text_of(row.guild_realm)
    &&& text_of(character.last_seen) == last_seen
    &&& character.run_count == row.run_count
}

impl CharacterRow {
    /// The character of a row, with its time written as `last_seen`.
    pub fn into_character_with(self, last_seen: Option<String>) -> (r: DebugCharacter)
        ensures
            shows_character(r, self, text_of(last_seen)),
    {
        DebugCharacter {
            id: self.id,
            region: self.region,
            realm: self.realm,
            name: self.name,
            guild_name: self.guild_name,
            guild_realm: self.guild_realm,
            last_seen,
            run_count: self.run_count,
        }
    }

    /// The character of a row.
    pub fn into_character(self) -> (r: DebugCharacter)
        ensures
            shows_character(
                r,
                self,
                match self.last_seen {
                    Some(at) => Some(rfc3339_text(at@)),
                    None => None,
                },
            ),
    {
        let last_seen = match &self.last_seen {
            Some(at) => Some(to_rfc3339(at)),
            None => None,
        };
        self.into_character_with(last_seen)
    }
}

// Linking characters to a player after the fact.

/// How a character of the list came out.
#[derive(Debug, Clone, Copy, PartialEq, Eq, Structural)]
pub enum LinkOutcome {
    /// Not in the database.
    Unknown,
    /// Linked now.
    Linked,
    /// Linked before.
    AlreadyLinked,
}

/// Links the characters of a list to a player, as far as they are in the database.
#[derive(Debug)]
pub struct LinkBackfill {
    pub player_id: String,
    pub characters: Vec<CharacterKey>,
    /// How the characters so far came out.
    pub outcomes: Vec<LinkOutcome>,
    /// The current character is being linked.
    pub linking: bool,
    /// How many links are new.
    pub linked: usize,
}

/// The keys of some characters.
pub open spec fn keys_of(characters: Seq<CharacterKey>) -> Seq<(Seq<char>, Seq<char>, Seq<char>)> {
    Seq::new(characters.len(), |i: int| characters[i]@)
}

/// What tables that hold `before` hold once the first `n` characters were linked, as far as
/// the tables know them.
pub open spec fn tables_with_links(
    player_id: Seq<char>,
    keys: Seq<(Seq<char>, Seq<char>, Seq<char>)>,
    before: Tables,
    n: nat,
) -> Tables
    decreases n,
{
    if n == 0 {
        before
    } else {
        let linked = tables_with_links(player_id, keys, before, (n - 1) as nat);
        if before.characters.dom().contains(keys[n - 1]) {
            linked.link(player_id, keys[n - 1])
        } else {
            linked
        }
    }
}

/// How character `i` comes out with tables that held `before`.
pub open spec fn link_outcome(
    player_id: Seq<char>,
    keys: Seq<(Seq<char>, Seq<char>, Seq<char>)>,
    before: Tables,
    i: int,
) -> LinkOutcome {
    if !before.characters.dom().contains(keys[i]) {
        LinkOutcome::Unknown
    } else if tables_with_links(player_id, keys, before, i as nat).links.contains(
        (player_id, keys[i]),
    ) {
        LinkOutcome::AlreadyLinked
    } else {
        LinkOutcome::Linked
    }
}

impl LinkBackfill {
    /// A character is being worked on, where one is being linked, and as many links are new
    /// as characters were linked now.
    pub open spec fn well_formed(self) -> bool {
        &&& self.outcomes@.len() <= self.characters@.len()
        &&& self.linking ==> self.outcomes@.len() < self.characters@.len()
        &&& self.linked == tally(self.outcomes@, LinkOutcome::Linked)
        &&& self.linked <= self.outcomes@.len()
    }

    pub open spec fn same_list(self, other: LinkBackfill) -> bool {
        self.player_id == other.player_id && self.characters == other.characters
    }

    pub open spec fn keys(self) -> Seq<(Seq<char>, Seq<char>, Seq<char>)> {
        keys_of(self.characters@)
    }

    /// The answers so far are those of tables that held `before`, which nothing but this
    /// list has written since.
    pub open spec fn is_answered_by(self, before: Tables) -> bool {
        &&& forall|i: int|
            0 <= i < self.outcomes@.len() ==> #[trigger] self.outcomes@[i] == link_outcome(
                self.player_id@,
                self.keys(),
                before,
                i,
            )
        &&& self.linking ==> link_outcome(
            self.player_id@,
            self.keys(),
            before,
            self.outcomes@.len() as int,
        ) != LinkOutcome::Unknown
    }

    /// Looks up the next character, if there is one; `found` takes the answer.
    pub fn find(&self) -> (r: Option<Statement>)
        requires
            self.well_formed(),
            !self.linking,
        ensures
            match r {
                Some(statement) => self.outcomes@.len() < self.characters@.len()
                    && statement.states(
                    FIND_CHARACTER_ID@,
                    seq![
                        Bound::Text(self.characters@[self.outcomes@.len() as int].region@),
                        Bound::Text(self.characters@[self.outcomes@.len() as int].realm@),
                        Bound::Text(self.characters@[self.outcomes@.len() as int].name@),
                    ],
                ),
                None => self.outcomes@.len() == self.characters@.len(),
            },
    {
        if self.outcomes.len() == self.characters.len() {
            return None;
        }
        let key = &self.characters[self.outcomes.len()];
        Some(
            Database::find_character_id(key.region.as_str(), key.realm.as_str(), key.name.as_str()),
        )
    }

    /// Goes on with the id of the character: links it, or passes over it where it is not in
    /// the database. After a link, `link_done` takes the number of rows that it changed.
    pub fn found(&mut self, id: Option<i64>) -> (r: Option<Statement>)
        requires
            old(self).well_formed(),
            !old(self).linking,
            old(self).outcomes@.len() < old(self).characters@.len(),
        ensures
            final(self).well_formed(),
            final(self).same_list(*old(self)),
            match r {
                Some(statement) => {
                    &&& final(self).linking
                    &&& final(self).outcomes@ == old(self).outcomes@
                    &&& id matches Some(id) && statement.states(
                        LINK_PLAYER_CHARACTER@,
                        seq![Bound::Text(old(self).player_id@), Bound::Integer(id as int)],
                    )
                },
                None => {
                    &&& !final(self).linking
                    &&& final(self).outcomes@ == old(self).outcomes@.push(LinkOutcome::Unknown)
                    &&& id is None
                },
            },
            forall|before: Tables| #[trigger]
                old(self).is_answered_by(before) && (id is Some
                    <==> before.characters.dom().contains(
                    old(self).keys()[old(self).outcomes@.len() as int],
                )) ==> final(self).is_answered_by(before),
    {
        match id {
            Some(id) => {
                self.linking = true;
                assert(self.keys() == old(self).keys());
                Some(Database::link_player_character(self.player_id.as_str(), id))
            },
            None => {
                self.outcomes.push(LinkOutcome::Unknown);
                assert(self.outcomes@.drop_last() == old(self).outcomes@);
                assert(self.keys() == old(self).keys());
                None
            },
        }
    }

    /// Goes on after a link, which is new where it changed rows.
    pub fn link_done(&mut self, rows_affected: u64)
        requires
            old(self).well_formed(),
            old(self).linking,
        ensures
            final(self).well_formed(),
            final(self).same_list(*old(self)),
            !final(self).linking,
            final(self).outcomes@ == old(self).outcomes@.push(
                if rows_affected > 0 {
                    LinkOutcome::Linked
                } else {
                    LinkOutcome::AlreadyLinked
                },
            ),
            forall|before: Tables| #[trigger]
                old(self).is_answered_by(before) && (rows_affected > 0 <==> link_outcome(
                    old(self).player_id@,
                    old(self).keys(),
                    before,
                    old(self).outcomes@.len() as int,
                ) == LinkOutcome::Linked) ==> final(self).is_answered_by(before),
    {
        let outcome = if changed_rows(rows_affected) {
            assert(self.outcomes@.len() < self.characters.len());
            self.linked = self.linked + 1;
            LinkOutcome::Linked
        } else {
            LinkOutcome::AlreadyLinked
        };
        self.outcomes.push(outcome);
        self.linking = false;
        assert(self.outcomes@.drop_last() == old(self).outcomes@);
        assert(self.keys() == old(self).keys());
    }
}

impl Database {
    /// Starts to link characters to a player.
    pub fn backfill_player_links(player_id: &str, characters: Vec<CharacterKey>) -> (r:
        LinkBackfill)
        ensures
            r.player_id@ == player_id@,
            r.characters == characters,
            r.outcomes@ == Seq::<LinkOutcome>::empty(),
            !r.linking,
            r.linked == 0,
            r.well_formed(),
            forall|before: Tables| #[trigger] r.is_answered_by(before),
    {
        LinkBackfill {
            player_id: String::from(player_id),
            characters,
            outcomes: Vec::new(),
            linking: false,
            linked: 0,
        }
    }
}

/// `key` is one of the first `n` keys.
pub open spec fn is_listed(
    keys: Seq<(Seq<char>, Seq<char>, Seq<char>)>,
    n: nat,
    key: (Seq<char>, Seq<char>, Seq<char>),
) -> bool {
    exists|i: int| 0 <= i < n && #[trigger] keys[i] == key
}

proof fn lemma_links(
    player_id: Seq<char>,
    keys: Seq<(Seq<char>, Seq<char>, Seq<char>)>,
    before: Tables,
    n: nat,
)
    ensures
        ({
            let after = tables_with_links(player_id, keys, before, n);
            &&& after.players == before.players
            &&& after.characters == before.characters
            &&& after.runs == before.runs
            &&& before.links.finite() ==> after.links.finite()
            &&& forall|link: (Seq<char>, (Seq<char>, Seq<char>, Seq<char>))| #[trigger]
                after.links.contains(link) <==> before.links.contains(link) || (link.0 == player_id
                    && before.characters.dom().contains(link.1) && is_listed(keys, n, link.1))
        }),
    decreases n,
{
    if n > 0 {
        lemma_links(player_id, keys, before, (n - 1) as nat);
        let after = tables_with_links(player_id, keys, before, n);
        let linked = tables_with_links(player_id, keys, before, (n - 1) as nat);
        assert forall|link: (Seq<char>, (Seq<char>, Seq<char>, Seq<char>))| #[trigger]
            after.links.contains(link) <==> before.links.contains(link) || (link.0 == player_id
                && before.characters.dom().contains(link.1) && is_listed(keys, n, link.1)) by {
            assert(linked.links.contains(link) <==> before.links.contains(link) || (link.0
                == player_id && before.characters.dom().contains(link.1) && is_listed(
                keys,
                (n - 1) as nat,
                link.1,
            )));
            assert(is_listed(keys, n, link.1) <==> is_listed(keys, (n - 1) as nat, link.1)
                || keys[n - 1] == link.1);
        }
    }
}

proof fn lemma_linked_counts(
    player_id: Seq<char>,
    keys: Seq<(Seq<char>, Seq<char>, Seq<char>)>,
    before: Tables,
    outcomes: Seq<LinkOutcome>,
)
    requires
        before.links.finite(),
        forall|i: int|
            0 <= i < outcomes.len() ==> #[trigger] outcomes[i] == link_outcome(
                player_id,
                keys,
                before,
                i,
            ),
    ensures
        tally(outcomes, LinkOutcome::Linked) == tables_with_links(
            player_id,
            keys,
            before,
            outcomes.len(),
        ).links.len() - before.links.len(),
    decreases outcomes.len(),
{
    if outcomes.len() > 0 {
        lemma_linked_counts(player_id, keys, before, outcomes.drop_last());
        lemma_links(player_id, keys, before, (outcomes.len() - 1) as nat);
        let linked = tables_with_links(player_id, keys, before, (outcomes.len() - 1) as nat);
        let key = keys[outcomes.len() - 1];
        assert(outcomes[outcomes.len() - 1] == link_outcome(
            player_id,
            keys,
            before,
            outcomes.len() - 1,
        ));
        if linked.links.contains((player_id, key)) {
            assert(linked.links.insert((player_id, key)) =~= linked.links);
        }
    }
}

/// A list that is done links its player to exactly those of its characters that the tables
/// know. It counts the links that are new, and changes nothing else.
pub proof fn backfill_links_the_known(backfill: LinkBackfill, before: Tables)
    requires
        backfill.well_formed(),
        backfill.outcomes@.len() == backfill.characters@.len(),
        backfill.is_answered_by(before),
        before.links.finite(),
    ensures
        ({
            let after = tables_with_links(
                backfill.player_id@,
                backfill.keys(),
                before,
                backfill.characters@.len(),
            );
            &&& forall|link: (Seq<char>, (Seq<char>, Seq<char>, Seq<char>))| #[trigger]
                after.links.contains(link) <==> before.links.contains(link) || (link.0
                    == backfill.player_id@ && before.characters.dom().contains(link.1)
                    && backfill.keys().contains(link.1))
            &&& backfill.linked == after.links.len() - before.links.len()
            &&& after.players == before.players
            &&& after.characters == before.characters
            &&& after.runs == before.runs
        }),
{
    let n = backfill.characters@.len();
    lemma_links(backfill.player_id@, backfill.keys(), before, n);
    lemma_linked_counts(backfill.player_id@, backfill.keys(), before, backfill.outcomes@);
    assert forall|key: (Seq<char>, Seq<char>, Seq<char>)| #[trigger]
        backfill.keys().contains(key) <==> is_listed(backfill.keys(), n, key) by {}
}

/// Each character that was found was linked once: as many links were made as characters
/// were found, and those that changed rows are counted.
pub proof fn every_found_character_is_linked_once(backfill: LinkBackfill)
    requires
        backfill.well_formed(),
    ensures
        backfill.linked == tally(backfill.outcomes@, LinkOutcome::Linked),
        tally(backfill.outcomes@, LinkOutcome::Linked) + tally(
            backfill.outcomes@,
            LinkOutcome::AlreadyLinked,
        ) + tally(backfill.outcomes@, LinkOutcome::Unknown) == backfill.outcomes@.len(),
{
    lemma_link_tallies_add_up(backfill.outcomes@);
}

proof fn lemma_link_tallies_add_up(outcomes: Seq<LinkOutcome>)
    ensures
        tally(outcomes, LinkOutcome::Linked) + tally(outcomes, LinkOutcome::AlreadyLinked) + tally(
            outcomes,
            LinkOutcome::Unknown,
        ) == outcomes.len(),
    decreases outcomes.len(),
{
    if outcomes.len() > 0 {
        lemma_link_tallies_add_up(outcomes.drop_last());
    }
}

/// A list that follows one with the same player and characters, with nothing else written
/// to the tables in between, makes no new link and leaves the tables as they are.
pub proof fn second_backfill_links_none(first: LinkBackfill, second: LinkBackfill, before: Tables)
    requires
        first.player_id@ == second.player_id@,
        first.keys() == second.keys(),
        first.characters@.len() == second.characters@.len(),
        before.links.finite(),
        second.well_formed(),
        second.outcomes@.len() == second.characters@.len(),
        second.is_answered_by(
            tables_with_links(first.player_id@, first.keys(), before, first.characters@.len()),
        ),
    ensures
        second.linked == 0,
        ({
            let after = tables_with_links(
                first.player_id@,
                first.keys(),
                before,
                first.characters@.len(),
            );
            tables_with_links(second.player_id@, second.keys(), after, second.characters@.len())
                == after
        }),
{
    let n = first.characters@.len();
    let after = tables_with_links(first.player_id@, first.keys(), before, n);
    let again = tables_with_links(first.player_id@, first.keys(), after, n);
    lemma_links(first.player_id@, first.keys(), before, n);
    lemma_links(first.player_id@, first.keys(), after, n);
    assert forall|link: (Seq<char>, (Seq<char>, Seq<char>, Seq<char>))| again.links.contains(link)
        == after.links.contains(link) by {}
    assert(again =~= after);
    lemma_linked_counts(first.player_id@, first.keys(), after, second.outcomes@);
}

// What goes to the database.

/// The values of a statement stand in it one for one, in order and as they were given.
pub proof fn values_are_bound_in_order(statement: Statement, sql: Seq<char>, bound: Seq<Bound>)
    requires
        statement.states(sql, bound),
    ensures
        statement.sql@ == sql,
        statement.values@.len() == bound.len(),
        forall|i: int|
            #![trigger statement.values@[i]]
            #![trigger bound[i]]
            0 <= i < bound.len() ==> match statement.values@[i] {
                SqlValue::Text(text) => bound[i] == Bound::Text(text@),
                SqlValue::OptionalText(Some(text)) => bound[i] == Bound::OptionalText(
                    Some(text@),
                ),
                SqlValue::OptionalText(None) => bound[i] == Bound::OptionalText(None),
                SqlValue::Integer(n) => bound[i] == Bound::Integer(n as int),
                SqlValue::Instant(at) => bound[i] == Bound::Instant(at@),
            },
{
    assert forall|i: int|
        #![trigger statement.values@[i]]
        #![trigger bound[i]]
        0 <= i < bound.len() implies match statement.values@[i] {
        SqlValue::Text(text) => bound[i] == Bound::Text(text@),
        SqlValue::OptionalText(Some(text)) => bound[i] == Bound::OptionalText(Some(text@)),
        SqlValue::OptionalText(None) => bound[i] == Bound::OptionalText(None),
        SqlValue::Integer(n) => bound[i] == Bound::Integer(n as int),
        SqlValue::Instant(at) => bound[i] == Bound::Instant(at@),
    } by {
        assert(statement.bound()[i] == bound[i]);
    }
}

/// A list of placeholders is a question mark for each, with commas between them.
pub proof fn placeholders_alternate_with_commas(n: nat)
    ensures
        n == 0 ==> placeholders(n).len() == 0,
        n > 0 ==> placeholders(n).len() == 2 * n - 1,
        forall|i: int|
            0 <= i < placeholders(n).len() ==> #[trigger] placeholders(n)[i] == if i % 2 == 0 {
                '?'
            } else {
                ','
            },
    decreases n,
{
    reveal_strlit("?");
    reveal_strlit(",?");
    if n > 1 {
        placeholders_alternate_with_commas((n - 1) as nat);
    }
}

/// The runs of some characters are counted with a placeholder for the id of each, followed by
/// the window and the lowest level; with no characters nothing is asked.
pub proof fn runs_are_counted_for_each_id(
    statement: Option<Statement>,
    character_ids: Seq<i64>,
    window: TimeWindow,
    min_level: i64,
)
    requires
        counts_runs(statement, character_ids, window, min_level),
    ensures
        statement is None <==> character_ids.len() == 0,
        statement matches Some(statement) ==> {
            let n = character_ids.len() as int;
            &&& statement.sql@ == "SELECT COUNT(*) FROM runs WHERE character_id IN ("@
                + placeholders(character_ids.len())
                + ") AND completed_at BETWEEN ? AND ? AND key_level >= ? AND within_time = 1"@
            &&& statement.values@.len() == n + 3
            &&& forall|i: int|
                0 <= i < n ==> #[trigger] statement.values@[i] == SqlValue::Integer(
                    character_ids[i],
                )
            &&& statement.values@[n] matches SqlValue::Instant(from) && from@ == window.from@
            &&& statement.values@[n + 1] matches SqlValue::Instant(to) && to@ == window.to@
            &&& statement.values@[n + 2] == SqlValue::Integer(min_level)
        },
{
    if let Some(statement) = statement {
        let n = character_ids.len() as int;
        let bound = Seq::new(
            character_ids.len(),
            |i: int| Bound::Integer(character_ids[i] as int),
        ) + seq![
            Bound::Instant(window.from@),
            Bound::Instant(window.to@),
            Bound::Integer(min_level as int),
        ];
        values_are_bound_in_order(
            statement,
            COUNT_RUNS_BEFORE_IDS@ + placeholders(character_ids.len()) + COUNT_RUNS_AFTER_IDS@,
            bound,
        );
        assert(bound[n] == Bound::Instant(window.from@));
        assert(bound[n + 1] == Bound::Instant(window.to@));
        assert(bound[n + 2] == Bound::Integer(min_level as int));
        assert forall|i: int| 0 <= i < n implies #[trigger] statement.values@[i]
            == SqlValue::Integer(character_ids[i]) by {
            assert(bound[i] == Bound::Integer(character_ids[i] as int));
        }
    }
}

/// A character is written under its own region, realm and name, with its guild where one is
/// given, as seen at the given time.
pub proof fn character_is_written_as_given(
    statement: Statement,
    region: Seq<char>,
    realm: Seq<char>,
    name: Seq<char>,
    guild_name: Option<Seq<char>>,
    guild_realm: Option<Seq<char>>,
    now: Moment,
)
    requires
        upserts_character(statement, region, realm, name, guild_name, guild_realm, now),
    ensures
        statement.sql@ == UPSERT_CHARACTER@,
        statement.values@.len() == 6,
        statement.values@[0] matches SqlValue::Text(text) && text@ == region,
        statement.values@[1] matches SqlValue::Text(text) && text@ == realm,
        statement.values@[2] matches SqlValue::Text(text) && text@ == name,
        statement.values@[3] matches SqlValue::OptionalText(text) && match text {
            Some(text) => guild_name == Some(text@),
            None => guild_name is None,
        },
        statement.values@[4] matches SqlValue::OptionalText(text) && match text {
            Some(text) => guild_realm == Some(text@),
            None => guild_realm is None,
        },
        statement.values@[5] matches SqlValue::Instant(at) && at@ == now,
{
    let bound = seq![
        Bound::Text(region),
        Bound::Text(realm),
        Bound::Text(name),
        Bound::OptionalText(guild_name),
        Bound::OptionalText(guild_realm),
        Bound::Instant(now),
    ];
    values_are_bound_in_order(statement, UPSERT_CHARACTER@, bound);
    assert(bound[0] == Bound::Text(region));
    assert(bound[1] == Bound::Text(realm));
    assert(bound[2] == Bound::Text(name));
    assert(bound[3] == Bound::OptionalText(guild_name));
    assert(bound[4] == Bound::OptionalText(guild_realm));
    assert(bound[5] == Bound::Instant(now));
}

/// The statistics count the runs since midnight and those of the last seven days.
pub proof fn statistics_look_back_a_day_and_a_week(
    stats: StatsStatements,
    today: Moment,
    week_end: Moment,
)
    requires
        asks_for_stats(stats, today, week_end),
    ensures
        stats.total_characters.sql@ == COUNT_CHARACTERS@,
        stats.total_runs.sql@ == COUNT_RUNS@,
        stats.runs_today.sql@ == COUNT_RUNS_SINCE@,
        stats.runs_this_week.sql@ == COUNT_RUNS_SINCE@,
        stats.runs_by_dungeon.sql@ == RUNS_BY_DUNGEON@,
        stats.runs_by_keylevel.sql@ == RUNS_BY_KEYLEVEL@,
        stats.top_characters.sql@ == TOP_CHARACTERS@,
        stats.total_characters.values@.len() == 0,
        stats.total_runs.values@.len() == 0,
        stats.runs_by_dungeon.values@.len() == 0,
        stats.runs_by_keylevel.values@.len() == 0,
        stats.top_characters.values@.len() == 0,
        stats.runs_today.values@.len() == 1,
        stats.runs_today.values@[0] matches SqlValue::Instant(since) && {
            &&& since@.nanos == 0
            &&& since@.secs % 86_400 == 0
            &&& since@.secs <= today.secs < since@.secs + 86_400
        },
        stats.runs_this_week.values@.len() == 1,
        stats.runs_this_week.values@[0] matches SqlValue::Instant(since) && {
            &&& since@.nanos == week_end.nanos
            &&& since@.secs + 604_800 == week_end.secs
        },
{
    let day = seq![Bound::Instant(midnight(today))];
    let week = seq![
        Bound::Instant(Moment { secs: week_end.secs - 7 * 86_400, nanos: week_end.nanos }),
    ];
    values_are_bound_in_order(stats.total_characters, COUNT_CHARACTERS@, Seq::empty());
    values_are_bound_in_order(stats.total_runs, COUNT_RUNS@, Seq::empty());
    values_are_bound_in_order(stats.runs_by_dungeon, RUNS_BY_DUNGEON@, Seq::empty());
    values_are_bound_in_order(stats.runs_by_keylevel, RUNS_BY_KEYLEVEL@, Seq::empty());
    values_are_bound_in_order(stats.top_characters, TOP_CHARACTERS@, Seq::empty());
    values_are_bound_in_order(stats.runs_today, COUNT_RUNS_SINCE@, day);
    values_are_bound_in_order(stats.runs_this_week, COUNT_RUNS_SINCE@, week);
    assert(day[0] == Bound::Instant(midnight(today)));
    assert(week[0] == Bound::Instant(
        Moment { secs: week_end.secs - 7 * 86_400, nanos: week_end.nanos },
    ));
}

/// A path opens the file at it, made where it is missing; a URL is taken as it is. What comes
/// out is a URL, so that making it again changes nothing.
pub proof fn database_url_names_its_path(database_url: Seq<char>)
    ensures
        "sqlite:"@.is_prefix_of(sqlite_url(database_url)),
        sqlite_url(sqlite_url(database_url)) == sqlite_url(database_url),
        "sqlite:"@.is_prefix_of(database_url) ==> sqlite_url(database_url) == database_url,
        !"sqlite:"@.is_prefix_of(database_url) ==> {
            let url = sqlite_url(database_url);
            let end = 7 + database_url.len() as int;
            &&& url.subrange(7, end) == database_url
            &&& url.skip(end) == "?mode=rwc"@
        },
{
    reveal_strlit("sqlite:");
    reveal_strlit("?mode=rwc");
    let url = "sqlite:"@ + database_url + "?mode=rwc"@;
    let end = 7 + database_url.len() as int;
    assert("sqlite:"@ == url.subrange(0, 7));
    assert(url.subrange(7, end) == database_url);
    assert(url.skip(end) == "?mode=rwc"@);
}

/// A run is shown as its row has it, and as timed unless the row says 0.
pub proof fn shown_run_is_that_of_the_row(run: DebugRun, row: RunRow, completed_at: Seq<char>)
    requires
        shows_run(run, row, completed_at),
    ensures
        run.id == row.id,
        run.character_name@ == row.character_name@,
        run.realm@ == row.realm@,
        run.region@ == row.region@,
        run.dungeon_short@ == row.dungeon_short@,
        run.key_level == row.key_level,
        run.completed_at@ == completed_at,
        row.within_time == 0 <==> !run.within_time,
        row.url is Some <==> run.url is Some,
        row.url is Some ==> run.url->0@ == row.url->0@,
        run.hash@ == row.hash@,
{
}

/// A character is shown as its row has it.
pub proof fn shown_character_is_that_of_the_row(
    character: DebugCharacter,
    row: CharacterRow,
    last_seen: Option<Seq<char>>,
)
    requires
        shows_character(character, row, last_seen),
    ensures
        character.id == row.id,
        character.region@ == row.region@,
        character.realm@ == row.realm@,
        character.name@ == row.name@,
        row.guild_name is Some <==> character.guild_name is Some,
        row.guild_name is Some ==> character.guild_name->0@ == row.guild_name->0@,
        row.guild_realm is Some <==> character.guild_realm is Some,
        row.guild_realm is Some ==> character.guild_realm->0@ == row.guild_realm->0@,
        last_seen is Some <==> character.last_seen is Some,
        last_seen is Some ==> character.last_seen->0@ == last_seen->0,
        character.run_count == row.run_count,
{
}

/// A character is found, read and deleted by its region, realm and name together, and written
/// under them: a guild that is not given stays as it was.
pub proof fn character_statements_go_by_the_key()
    ensures
        UPSERT_CHARACTER@
            == "INSERT INTO characters (region, realm, name, guild_name, guild_realm, last_seen) \
             VALUES (?, ?, ?, ?, ?, ?) \
             ON CONFLICT (region, realm, name) DO UPDATE SET \
             guild_name = COALESCE(excluded.guild_name, guild_name), \
             guild_realm = COALESCE(excluded.guild_realm, guild_realm), \
             last_seen = excluded.last_seen \
             RETURNING id"@,
        FIND_CHARACTER_ID@ == "SELECT id FROM characters WHERE region=? AND realm=? AND name=?"@,
        GET_CHARACTER@ == "SELECT id, region, realm, name, guild_name, guild_realm, last_seen \
             FROM characters WHERE region=? AND realm=? AND name=?"@,
        LIST_ALL_CHARACTERS@
            == "SELECT id, region, realm, name, guild_name, guild_realm, last_seen \
             FROM characters"@,
        DELETE_CHARACTER@ == "DELETE FROM characters WHERE region=? AND realm=? AND name=?"@,
{
}

/// A player is written and read under its id, and a character is linked to it once.
pub proof fn player_statements_go_by_the_id()
    ensures
        UPSERT_PLAYER@ == "INSERT INTO players (id, label) VALUES (?, ?) \
             ON CONFLICT (id) DO UPDATE SET label = excluded.label"@,
        LINK_PLAYER_CHARACTER@
            == "INSERT OR IGNORE INTO player_characters (player_id, character_id) \
             VALUES (?, ?)"@,
        GET_PLAYER@ == "SELECT id, label FROM players WHERE id=?"@,
        GET_PLAYER_CHARACTER_IDS@
            == "SELECT character_id FROM player_characters WHERE player_id=?"@,
        GET_ALL_PLAYERS@ == "SELECT id, label FROM players ORDER BY label"@,
{
}

/// A run is written once under its hash, and asked for by it.
pub proof fn run_statements_go_by_the_hash()
    ensures
        INSERT_RUN@ == "INSERT INTO runs \
             (character_id, dungeon_short, key_level, completed_at, within_time, \
             season, url, source_run_id, hash) \
             VALUES (?, ?, ?, ?, ?, ?, ?, ?, ?) \
             ON CONFLICT (hash) DO NOTHING"@,
        RUN_HASH_EXISTS@ == "SELECT 1 FROM runs WHERE hash=? LIMIT 1"@,
{
}

/// The runs that are counted lie in the window, both ends taken, reach the lowest level and
/// were timed.
pub proof fn key_counts_take_timed_runs()
    ensures
        COUNT_RUNS_FOR_CHARACTER@ == "SELECT COUNT(*) FROM runs \
             WHERE character_id=? AND completed_at BETWEEN ? AND ? \
             AND key_level >= ? AND within_time = 1"@,
        COUNT_RUNS_BEFORE_IDS@ == "SELECT COUNT(*) FROM runs WHERE character_id IN ("@,
        COUNT_RUNS_AFTER_IDS@ == ") AND completed_at BETWEEN ? AND ? \
             AND key_level >= ? AND within_time = 1"@,
        UNTRACKED_RUNS@ == "SELECT c.id, c.name, c.realm, c.region, \
             COUNT(r.id) AS run_count \
             FROM characters c \
             LEFT JOIN runs r \
             ON r.character_id = c.id \
             AND r.within_time = 1 \
             AND r.completed_at BETWEEN ? AND ? \
             AND r.key_level >= ? \
             WHERE c.id NOT IN ( \
             SELECT character_id FROM player_characters \
             ) \
             GROUP BY c.id \
             HAVING run_count > 0 \
             ORDER BY run_count DESC"@,
        COUNT_RUNS@ == "SELECT COUNT(*) FROM runs WHERE within_time = 1"@,
        COUNT_RUNS_SINCE@
            == "SELECT COUNT(*) FROM runs WHERE completed_at >= ? AND within_time = 1"@,
{
}

/// The debug pages list timed runs, the latest first, and depletions those that were not timed.
pub proof fn debug_pages_list_timed_runs()
    ensures
        LIST_RUNS@ == "SELECT r.id, c.name, c.realm, c.region, \
             r.dungeon_short, r.key_level, r.completed_at, \
             r.within_time, r.url, r.hash \
             FROM runs r \
             JOIN characters c ON c.id = r.character_id \
             WHERE r.completed_at BETWEEN ? AND ? \
             AND r.key_level >= ? \
             AND r.within_time = 1 \
             ORDER BY r.completed_at DESC \
             LIMIT ?"@,
        LIST_RUNS_FOR_GUILD@ == "SELECT r.id, c.name, c.realm, c.region, \
             r.dungeon_short, r.key_level, r.completed_at, \
             r.within_time, r.url, r.hash \
             FROM runs r \
             JOIN characters c ON c.id = r.character_id \
             WHERE c.guild_name = ? AND c.guild_realm = ? \
             AND r.completed_at BETWEEN ? AND ? \
             AND r.key_level >= ? \
             AND r.within_time = 1 \
             ORDER BY r.completed_at DESC \
             LIMIT ?"@,
        GET_DEPLETIONS@ == "SELECT c.name, c.realm, c.region, \
             COUNT(r.id) AS depleted_count \
             FROM runs r \
             JOIN characters c ON c.id = r.character_id \
             WHERE r.within_time = 0 \
             AND r.completed_at BETWEEN ? AND ? \
             GROUP BY c.id \
             ORDER BY depleted_count DESC \
             LIMIT ?"@,
        LIST_ALL_CHARACTERS_DEBUG@ == "SELECT c.id, c.region, c.realm, c.name, \
             c.guild_name, c.guild_realm, \
             c.last_seen, \
             COUNT(r.id) AS run_count \
             FROM characters c \
             LEFT JOIN runs r ON r.character_id = c.id AND r.within_time = 1 \
             GROUP BY c.id \
             ORDER BY run_count DESC"@,
{
}

/// The statistics count all characters and the timed runs.
pub proof fn statistics_count_timed_runs()
    ensures
        COUNT_CHARACTERS@ == "SELECT COUNT(*) FROM characters"@,
        RUNS_BY_DUNGEON@ == "SELECT dungeon_short, COUNT(*) AS cnt FROM runs \
             WHERE within_time = 1 GROUP BY dungeon_short ORDER BY cnt DESC"@,
        RUNS_BY_KEYLEVEL@ == "SELECT key_level, COUNT(*) AS cnt FROM runs \
             WHERE within_time = 1 GROUP BY key_level ORDER BY key_level DESC"@,
        TOP_CHARACTERS@ == "SELECT c.name, c.realm, c.region, COUNT(r.id) AS cnt \
             FROM runs r \
             JOIN characters c ON c.id = r.character_id \
             WHERE r.within_time = 1 \
             GROUP BY c.id \
             ORDER BY cnt DESC \
             LIMIT 20"@,
{
}

/// The members of a guild are those whose rows name it and its realm.
pub proof fn guild_members_go_by_name_and_realm()
    ensures
        GET_GUILD_MEMBERS@ == "SELECT id, region, realm, name, guild_name, guild_realm, last_seen \
             FROM characters WHERE guild_name=? AND guild_realm=?"@,
{
}

/// A character of the list comes out by what the tables held: as unknown where they did not
/// have it, as linked already where they linked it to the player or it stands earlier in the
/// list, and else as linked now.
pub proof fn characters_come_out_as_the_tables_have_them(
    backfill: LinkBackfill,
    before: Tables,
    i: int,
)
    requires
        backfill.is_answered_by(before),
        0 <= i < backfill.outcomes@.len(),
        backfill.outcomes@.len() <= backfill.characters@.len(),
    ensures
        ({
            let c = backfill.characters@[i];
            let key = (c.region@, c.realm@, c.name@);
            let known = before.characters.dom().contains(key);
            let earlier = exists|j: int|
                #![trigger backfill.characters@[j]]
                0 <= j < i && backfill.characters@[j].region@ == key.0
                    && backfill.characters@[j].realm@ == key.1 && backfill.characters@[j].name@
                    == key.2;
            let linked = before.links.contains((backfill.player_id@, key)) || earlier;
            &&& backfill.outcomes@[i] == LinkOutcome::Unknown <==> !known
            &&& backfill.outcomes@[i] == LinkOutcome::AlreadyLinked <==> known && linked
            &&& backfill.outcomes@[i] == LinkOutcome::Linked <==> known && !linked
        }),
{
    let keys = backfill.keys();
    let c = backfill.characters@[i];
    let key = (c.region@, c.realm@, c.name@);
    lemma_links(backfill.player_id@, keys, before, i as nat);
    assert(keys[i] == key);
    assert(backfill.outcomes@[i] == link_outcome(backfill.player_id@, keys, before, i));
    if is_listed(keys, i as nat, key) {
        let j = choose|j: int| 0 <= j < i && #[trigger] keys[j] == key;
        assert(keys[j] == backfill.characters@[j]@);
    }
    if exists|j: int|
        #![trigger backfill.characters@[j]]
        0 <= j < i && backfill.characters@[j].region@ == key.0 && backfill.characters@[j].realm@
            == key.1 && backfill.characters@[j].name@ == key.2 {
        let j = choose|j: int|
            #![trigger backfill.characters@[j]]
            0 <= j < i && backfill.characters@[j].region@ == key.0
                && backfill.characters@[j].realm@ == key.1 && backfill.characters@[j].name@
                == key.2;
        assert(keys[j] == key);
    }
}

/// A run is stored with all that is kept of it, and a row that holds what was stored shows the
/// run as timed exactly where it was.
pub proof fn stored_run_is_shown_as_it_was(
    run: &Run,
    statement: Statement,
    shown: DebugRun,
    row: RunRow,
    completed_at: Seq<char>,
)
    requires
        call_ensures(Database::insert_run, (run,), statement),
        shows_run(shown, row, completed_at),
        statement.values@[4] == SqlValue::Integer(row.within_time),
    ensures
        statement.sql@ == INSERT_RUN@,
        statement.values@.len() == 9,
        statement.values@[0] == SqlValue::Integer(run.character_id),
        statement.values@[1] matches SqlValue::Text(text) && text@ == run.dungeon_short@,
        statement.values@[2] == SqlValue::Integer(run.key_level),
        statement.values@[3] matches SqlValue::Instant(at) && at@ == run.completed_at@,
        shown.within_time == run.within_time,
        statement.values@[5] matches SqlValue::OptionalText(text) && text_of(text) == text_of(
            run.season,
        ),
        statement.values@[6] matches SqlValue::OptionalText(text) && text_of(text) == text_of(
            run.url,
        ),
        statement.values@[7] matches SqlValue::OptionalText(text) && text_of(text) == text_of(
            run.source_run_id,
        ),
        statement.values@[8] matches SqlValue::Text(text) && text@ == run.hash@,
{
    assert(forall|i: int|
        0 <= i < statement.values@.len() ==> #[trigger] statement.bound()[i]
            == statement.values@[i]@);
    assert(statement.bound().len() == 9);
    assert(statement.bound()[0] == Bound::Integer(run.character_id as int));
    assert(statement.bound()[1] == Bound::Text(run.dungeon_short@));
    assert(statement.bound()[2] == Bound::Integer(run.key_level as int));
    assert(statement.bound()[3] == Bound::Instant(run.completed_at@));
    assert(statement.bound()[4] == Bound::Integer(if run.within_time {
        1
    } else {
        0
    }));
    assert(statement.bound()[5] == Bound::OptionalText(text_of(run.season)));
    assert(statement.bound()[6] == Bound::OptionalText(text_of(run.url)));
    assert(statement.bound()[7] == Bound::OptionalText(text_of(run.source_run_id)));
    assert(statement.bound()[8] == Bound::Text(run.hash@));
}

/// A character is looked up, read and deleted under the very texts under which it is written.
pub proof fn character_is_found_where_it_was_written(
    region: &str,
    realm: &str,
    name: &str,
    written: Statement,
    guild_name: Option<Seq<char>>,
    guild_realm: Option<Seq<char>>,
    now: Moment,
    found: Statement,
    read: Statement,
    deleted: Statement,
)
    requires
        upserts_character(written, region@, realm@, name@, guild_name, guild_realm, now),
        call_ensures(Database::find_character_id, (region, realm, name), found),
        call_ensures(Database::get_character, (region, realm, name), read),
        call_ensures(Database::delete_character, (region, realm, name), deleted),
    ensures
        found.sql@ == FIND_CHARACTER_ID@,
        read.sql@ == GET_CHARACTER@,
        deleted.sql@ == DELETE_CHARACTER@,
        found.bound() == written.bound().take(3),
        read.bound() == written.bound().take(3),
        deleted.bound() == written.bound().take(3),
{
}

/// A player is looked up under the very id under which it is written, and its characters are
/// linked and listed under it.
pub proof fn player_is_found_where_it_was_written(
    id: &str,
    label: &str,
    character_id: i64,
    written: Statement,
    linked: Statement,
    found: Statement,
    listed: Statement,
)
    requires
        call_ensures(Database::upsert_player, (id, label), written),
        call_ensures(Database::link_player_character, (id, character_id), linked),
        call_ensures(Database::get_player, (id,), found),
        call_ensures(Database::get_player_character_ids, (id,), listed),
    ensures
        written.bound() == seq![Bound::Text(id@), Bound::Text(label@)],
        linked.bound() == seq![written.bound()[0], Bound::Integer(character_id as int)],
        found.bound() == written.bound().take(1),
        listed.bound() == written.bound().take(1),
        written.sql@ == UPSERT_PLAYER@,
        linked.sql@ == LINK_PLAYER_CHARACTER@,
        found.sql@ == GET_PLAYER@,
        listed.sql@ == GET_PLAYER_CHARACTER_IDS@,
{
}

/// A run is asked for under the very hash under which it is stored.
pub proof fn run_is_found_where_it_was_stored(
    run: &Run,
    stored: Statement,
    hash: &str,
    asked: Statement,
)
    requires
        call_ensures(Database::insert_run, (run,), stored),
        call_ensures(Database::run_hash_exists, (hash,), asked),
        hash@ == run.hash@,
    ensures
        asked.sql@ == RUN_HASH_EXISTS@,
        asked.bound().len() == 1,
        asked.bound()[0] == stored.bound()[8],
{
}

} // verus!
