//! Settings: their defaults, and what environment variables change in them.

use crate::text::{
    decimal, decimal_numbers_read_as_themselves, int_text, parse_u64, unsigned_reading,
};
use vstd::prelude::*;

verus! {

#[derive(Debug, Clone)]
pub struct Config {
    pub raiderio: RaiderIoConfig,
    pub storage: StorageConfig,
    pub server: ServerConfig,
    pub concurrency: ConcurrencyConfig,
    pub guilds: Vec<GuildConfig>,
    pub players: Vec<PlayerConfig>,
}

#[derive(Debug, Clone)]
pub struct RaiderIoConfig {
    pub base_url: String,
    pub user_agent: String,
    /// Maximum retries on transient errors and on status 429.
    pub max_retries: u32,
    /// Base backoff in milliseconds.
    pub base_backoff_ms: u64,
    /// Maximum backoff in milliseconds.
    pub max_backoff_ms: u64,
}

#[derive(Debug, Clone)]
pub struct StorageConfig {
    pub database_path: String,
}

#[derive(Debug, Clone)]
pub struct ServerConfig {
    pub host: String,
    pub port: u16,
}

#[derive(Debug, Clone)]
pub struct ConcurrencyConfig {
    /// Maximum number of concurrent Raider.IO requests.
    pub max_concurrent_raiderio: usize,
}

#[derive(Debug, Clone)]
pub struct GuildConfig {
    pub region: String,
    pub realm: String,
    pub name: String,
}

#[derive(Debug, Clone)]
pub struct PlayerConfig {
    pub id: String,
    pub label: String,
    pub characters: Vec<CharacterRef>,
}

#[derive(Debug, Clone)]
pub struct CharacterRef {
    pub region: String,
    pub realm: String,
    pub name: String,
}

pub fn default_base_url() -> (r: String)
    ensures
        r@ == "https://raider.io/api/v1"@,
{
    String::from("https://raider.io/api/v1")
}

pub fn default_user_agent() -> (r: String)
    ensures
        r@ == "mplus-tracker/0.1"@,
{
    String::from("mplus-tracker/0.1")
}

pub fn default_max_retries() -> (r: u32)
    ensures
        r == 5,
{
    5
}

pub fn default_base_backoff_ms() -> (r: u64)
    ensures
        r == 1_000,
{
    1_000
}

pub fn default_max_backoff_ms() -> (r: u64)
    ensures
        r == 120_000,
{
    120_000
}

pub fn default_database_path() -> (r: String)
    ensures
        r@ == "/data/mplus.sqlite"@,
{
    String::from("/data/mplus.sqlite")
}

pub fn default_host() -> (r: String)
    ensures
        r@ == "0.0.0.0"@,
{
    String::from("0.0.0.0")
}

pub fn default_port() -> (r: u16)
    ensures
        r == 8080,
{
    8080
}

pub fn default_max_concurrent() -> (r: usize)
    ensures
        r == 3,
{
    3
}

impl Default for RaiderIoConfig {
    fn default() -> (r: Self)
        ensures
            r.base_url@ == "https://raider.io/api/v1"@,
            r.user_agent@ == "mplus-tracker/0.1"@,
            r.max_retries == 5,
            r.base_backoff_ms == 1_000,
            r.max_backoff_ms == 120_000,
    {
        RaiderIoConfig {
            base_url: default_base_url(),
            user_agent: default_user_agent(),
            max_retries: default_max_retries(),
            base_backoff_ms: default_base_backoff_ms(),
            max_backoff_ms: default_max_backoff_ms(),
        }
    }
}

impl Default for StorageConfig {
    fn default() -> (r: Self)
        ensures
            r.database_path@ == "/data/mplus.sqlite"@,
    {
        StorageConfig { database_path: default_database_path() }
    }
}

impl Default for ServerConfig {
    fn default() -> (r: Self)
        ensures
            r.host@ == "0.0.0.0"@,
            r.port == 8080,
    {
        ServerConfig { host: default_host(), port: default_port() }
    }
}

impl Default for ConcurrencyConfig {
    fn default() -> (r: Self)
        ensures
            r.max_concurrent_raiderio == 3,
    {
        ConcurrencyConfig { max_concurrent_raiderio: default_max_concurrent() }
    }
}

/// The environment variables that override settings, where they are set.
#[derive(Debug)]
pub struct EnvOverrides {
    /// `DATABASE_PATH`
    pub database_path: Option<String>,
    /// `SERVER_HOST`
    pub server_host: Option<String>,
    /// `SERVER_PORT`
    pub server_port: Option<String>,
    /// `MAX_CONCURRENT_RAIDERIO`
    pub max_concurrent_raiderio: Option<String>,
}

#[derive(Clone, Copy, Debug, PartialEq, Eq)]
pub enum ConfigError {
    InvalidServerPort,
    InvalidMaxConcurrentRaiderio,
}

impl ConfigError {
    pub fn message(&self) -> (r: &'static str)
        ensures
            r@ == (match self {
                ConfigError::InvalidServerPort => "Invalid SERVER_PORT"@,
                ConfigError::InvalidMaxConcurrentRaiderio => "Invalid MAX_CONCURRENT_RAIDERIO"@,
            }),
    {
        match self {
            ConfigError::InvalidServerPort => "Invalid SERVER_PORT",
            ConfigError::InvalidMaxConcurrentRaiderio => "Invalid MAX_CONCURRENT_RAIDERIO",
        }
    }
}

/// The number that overrides a setting: the one in force, where the variable is not
/// set; none, where the variable holds no number up to `max`.
pub open spec fn overridden_number(var: Option<String>, current: int, max: int) -> Option<int> {
    match var {
        None => Some(current),
        Some(text) => unsigned_reading(text@, max),
    }
}

/// The text that overrides a setting: the one in force, where the variable is not set.
pub open spec fn overridden_text(var: Option<String>, current: String) -> String {
    match var {
        None => current,
        Some(text) => text,
    }
}

/// A number up to `max`, read as the standard library reads it.
fn parse_up_to(text: &str, max: u64) -> (r: Option<u64>)
    ensures
        match r {
            Some(n) => unsigned_reading(text@, max as int) == Some(n as int),
            None => unsigned_reading(text@, max as int) is None,
        },
{
    match parse_u64(text) {
        Some(n) => if n <= max {
            Some(n)
        } else {
            None
        },
        None => None,
    }
}

impl Config {
    /// The settings with the environment's overrides. The port is looked at before the
    /// number of concurrent requests.
    pub fn with_overrides(self, env: EnvOverrides) -> (r: Result<Config, ConfigError>)
        ensures
            ({
                let port = overridden_number(
                    env.server_port,
                    self.server.port as int,
                    u16::MAX as int,
                );
                let max = overridden_number(
                    env.max_concurrent_raiderio,
                    self.concurrency.max_concurrent_raiderio as int,
                    usize::MAX as int,
                );
                match r {
                    Ok(c) => {
                        &&& port == Some(c.server.port as int)
                        &&& max == Some(c.concurrency.max_concurrent_raiderio as int)
                        &&& c.server.host == overridden_text(env.server_host, self.server.host)
                        &&& c.storage.database_path == overridden_text(
                            env.database_path,
                            self.storage.database_path,
                        )
                        &&& c.raiderio == self.raiderio
                        &&& c.guilds == self.guilds
                        &&& c.players == self.players
                    },
                    Err(ConfigError::InvalidServerPort) => port is None,
                    Err(ConfigError::InvalidMaxConcurrentRaiderio) => port is Some && max is None,
                }
            }),
    {
        let mut cfg = self;
        if let Some(path) = env.database_path {
            cfg.storage.database_path = path;
        }
        if let Some(host) = env.server_host {
            cfg.server.host = host;
        }
        if let Some(port) = env.server_port {
            match parse_up_to(port.as_str(), u16::MAX as u64) {
                Some(n) => {
                    cfg.server.port = n as u16;
                },
                None => {
                    return Err(ConfigError::InvalidServerPort);
                },
            }
        }
        if let Some(max) = env.max_concurrent_raiderio {
            match parse_up_to(max.as_str(), usize::MAX as u64) {
                Some(n) => {
                    cfg.concurrency.max_concurrent_raiderio = n as usize;
                },
                None => {
                    return Err(ConfigError::InvalidMaxConcurrentRaiderio);
                },
            }
        }
        Ok(cfg)
    }
}

impl ServerConfig {
    /// The address to listen on, as `host:port`.
    pub fn address(&self) -> (r: String)
        ensures
            r@ == self.host@ + ":"@ + decimal(self.port as int),
    {
        let mut r = self.host.clone();
        r.append(":");
        r.append(int_text(self.port as i64).as_str());
        r
    }
}

/// The path of the settings file: what `CONFIG_PATH` holds, or else `config.toml`.
pub fn config_path(from_env: Option<String>) -> (r: String)
    ensures
        r@ == (match from_env {
            Some(path) => path@,
            None => "config.toml"@,
        }),
{
    match from_env {
        Some(path) => path,
        None => String::from("config.toml"),
    }
}

/// With no variable set, the settings stay as they are.
pub proof fn no_overrides_change_nothing(cfg: Config)
    ensures
        overridden_number(None, cfg.server.port as int, u16::MAX as int) == Some(
            cfg.server.port as int,
        ),
        overridden_number(
            None,
            cfg.concurrency.max_concurrent_raiderio as int,
            usize::MAX as int,
        ) == Some(cfg.concurrency.max_concurrent_raiderio as int),
        overridden_text(None, cfg.server.host) == cfg.server.host,
        overridden_text(None, cfg.storage.database_path) == cfg.storage.database_path,
{
}

/// A number that a variable holds is the one in force, in decimal and with a plus sign before
/// it too, unless it is too large. A text that a variable holds is the one in force.
pub proof fn variables_override_settings(
    n: nat,
    number: String,
    text: String,
    current: int,
    current_text: String,
    max: int,
)
    requires
        number@ == decimal(n as int) || number@ == seq!['+'] + decimal(n as int),
    ensures
        n <= max ==> overridden_number(Some(number), current, max) == Some(n as int),
        n > max && number@ == decimal(n as int) ==> overridden_number(
            Some(number),
            current,
            max,
        ) is None,
        overridden_text(Some(text), current_text) == text,
{
    decimal_numbers_read_as_themselves(n, max, number@);
}

/// A variable that holds no digits, or anything but digits behind at most one plus sign, is
/// refused, whatever was in force.
pub proof fn other_variables_are_refused(text: String, current: int, max: int, i: int)
    requires
        text@.len() == 0 || (0 <= i < text@.len() && !('0' <= text@[i] <= '9') && (i > 0
            || text@[i] != '+')),
    ensures
        overridden_number(Some(text), current, max) is None,
{
    decimal_numbers_read_as_themselves(0, max, text@);
}

} // verus!
