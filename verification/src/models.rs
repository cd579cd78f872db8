//! Domain types used across the crate.

use crate::instant::UtcInstant;
use vstd::prelude::*;

verus! {

/// The text of an optional string.
pub open spec fn text_of(s: Option<String>) -> Option<Seq<char>> {
    match s {
        Some(s) => Some(s@),
        None => None,
    }
}

// Rows of the database.

/// A row of the characters table.
#[derive(Debug, Clone)]
pub struct Character {
    pub id: i64,
    pub region: String,
    pub realm: String,
    pub name: String,
    pub guild_name: Option<String>,
    pub guild_realm: Option<String>,
    pub last_seen: Option<UtcInstant>,
}

/// A row of the players table.
#[derive(Debug, Clone)]
pub struct Player {
    pub id: String,
    pub label: String,
}

/// A run as it goes into the runs table.
#[derive(Debug, Clone)]
pub struct Run {
    pub character_id: i64,
    pub dungeon_short: String,
    pub key_level: i64,
    pub completed_at: UtcInstant,
    pub within_time: bool,
    pub season: Option<String>,
    pub url: Option<String>,
    pub source_run_id: Option<String>,
    pub hash: String,
}

// What Raider.IO answers.

#[derive(Debug, Clone)]
pub struct RioCharacterProfile {
    pub name: String,
    pub realm: String,
    pub region: String,
    pub mythic_plus_recent_runs: Option<Vec<RioRun>>,
}

/// A run's identifier, which Raider.IO sends as a JSON number or string; a number is
/// held as its JSON text.
#[derive(Debug, Clone)]
pub enum RioRunId {
    Number(String),
    Text(String),
    Other,
}

#[derive(Debug, Clone)]
pub struct RioRun {
    pub dungeon: String,
    pub short_name: String,
    pub mythic_level: i64,
    pub completed_at: String,
    pub num_keystone_upgrades: i64,
    pub url: Option<String>,
    pub id: Option<RioRunId>,
}

#[derive(Debug, Clone)]
pub struct RioGuildProfile {
    pub name: String,
    pub realm: String,
    pub region: String,
    pub members: Option<Vec<RioGuildMember>>,
}

#[derive(Debug, Clone)]
pub struct RioGuildMember {
    pub character: RioMemberCharacter,
    pub rank: Option<i64>,
}

#[derive(Debug, Clone)]
pub struct RioMemberCharacter {
    pub name: String,
    pub realm: String,
    pub region: Option<String>,
    /// When Raider.IO last crawled the character's profile.
    pub last_crawled_at: Option<String>,
}

// What the service answers.

#[derive(Debug)]
pub struct CharacterSummary {
    pub region: String,
    pub realm: String,
    pub name: String,
    pub guild_name: Option<String>,
}

/// What a `CharacterSummary` says.
pub struct SummaryText {
    pub region: Seq<char>,
    pub realm: Seq<char>,
    pub name: Seq<char>,
    pub guild_name: Option<Seq<char>>,
}

impl View for CharacterSummary {
    type V = SummaryText;

    open spec fn view(&self) -> SummaryText {
        SummaryText {
            region: self.region@,
            realm: self.realm@,
            name: self.name@,
            guild_name: text_of(self.guild_name),
        }
    }
}

impl From<&Character> for CharacterSummary {
    fn from(c: &Character) -> (r: Self) {
        CharacterSummary {
            region: c.region.clone(),
            realm: c.realm.clone(),
            name: c.name.clone(),
            guild_name: c.guild_name.clone(),
        }
    }
}

impl vstd::std_specs::convert::FromSpecImpl<&Character> for CharacterSummary {
    open spec fn obeys_from_spec() -> bool {
        true
    }

    open spec fn from_spec(c: &Character) -> Self {
        CharacterSummary {
            region: c.region,
            realm: c.realm,
            name: c.name,
            guild_name: c.guild_name,
        }
    }
}

/// The body of an error answer.
#[derive(Debug)]
pub struct ApiError {
    pub error: String,
    pub code: u16,
}

/// Each of these takes for its message whatever the argument's conversion to `String` gives.
impl ApiError {
    pub fn not_found<T: Into<String>>(msg: T) -> (r: Self)
        ensures
            r.code == 404,
            call_ensures(<T as Into<String>>::into, (msg,), r.error),
    {
        ApiError { error: msg.into(), code: 404 }
    }

    pub fn bad_request<T: Into<String>>(msg: T) -> (r: Self)
        ensures
            r.code == 400,
            call_ensures(<T as Into<String>>::into, (msg,), r.error),
    {
        ApiError { error: msg.into(), code: 400 }
    }

    pub fn internal<T: Into<String>>(msg: T) -> (r: Self)
        ensures
            r.code == 500,
            call_ensures(<T as Into<String>>::into, (msg,), r.error),
    {
        ApiError { error: msg.into(), code: 500 }
    }
}

/// A text that is given is held, and one that is not is none.
pub proof fn optional_text_is_held(s: Option<String>)
    ensures
        s is None <==> text_of(s) is None,
        s is Some ==> text_of(s)->0 == s->0@,
{
}

/// A summary says what it holds, each in its own place.
pub proof fn summary_says_what_it_holds(summary: CharacterSummary)
    ensures
        summary@.region == summary.region@,
        summary@.realm == summary.realm@,
        summary@.name == summary.name@,
        summary.guild_name is None <==> summary@.guild_name is None,
        summary.guild_name is Some ==> summary@.guild_name == Some(summary.guild_name->0@),
{
}

} // verus!
