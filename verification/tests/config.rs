use mplus_tracker::config::{
    config_path, ConcurrencyConfig, Config, ConfigError, EnvOverrides, RaiderIoConfig,
    ServerConfig, StorageConfig,
};

fn defaults() -> Config {
    Config {
        raiderio: RaiderIoConfig::default(),
        storage: StorageConfig::default(),
        server: ServerConfig::default(),
        concurrency: ConcurrencyConfig::default(),
        guilds: vec![],
        players: vec![],
    }
}

fn no_env() -> EnvOverrides {
    EnvOverrides {
        database_path: None,
        server_host: None,
        server_port: None,
        max_concurrent_raiderio: None,
    }
}

fn some(text: &str) -> Option<String> {
    Some(text.to_string())
}

#[test]
fn default_settings() {
    let config = defaults();
    assert_eq!(config.raiderio.base_url, "https://raider.io/api/v1");
    assert_eq!(config.raiderio.user_agent, "mplus-tracker/0.1");
    assert_eq!(config.raiderio.max_retries, 5);
    assert_eq!(config.raiderio.base_backoff_ms, 1_000);
    assert_eq!(config.raiderio.max_backoff_ms, 120_000);
    assert_eq!(config.storage.database_path, "/data/mplus.sqlite");
    assert_eq!(config.server.host, "0.0.0.0");
    assert_eq!(config.server.port, 8080);
    assert_eq!(config.concurrency.max_concurrent_raiderio, 3);
    assert_eq!(config.server.address(), "0.0.0.0:8080");
}

#[test]
fn no_variables_change_nothing() {
    let config = defaults().with_overrides(no_env()).unwrap();
    assert_eq!(config.storage.database_path, "/data/mplus.sqlite");
    assert_eq!(config.server.address(), "0.0.0.0:8080");
    assert_eq!(config.concurrency.max_concurrent_raiderio, 3);
}

#[test]
fn variables_override_settings() {
    let env = EnvOverrides {
        database_path: some("./mplus.sqlite"),
        server_host: some("127.0.0.1"),
        server_port: some("+9090"),
        max_concurrent_raiderio: some("12"),
    };
    let config = defaults().with_overrides(env).unwrap();
    assert_eq!(config.storage.database_path, "./mplus.sqlite");
    assert_eq!(config.server.address(), "127.0.0.1:9090");
    assert_eq!(config.concurrency.max_concurrent_raiderio, 12);
    assert_eq!(config.raiderio.max_retries, 5);
}

#[test]
fn bad_port_is_refused() {
    for port in ["", "abc", "-1", "65536", " 80", "99999999999999999999"] {
        let env = EnvOverrides {
            server_port: some(port),
            max_concurrent_raiderio: some("x"),
            ..no_env()
        };
        assert_eq!(defaults().with_overrides(env).unwrap_err(), ConfigError::InvalidServerPort);
    }
    assert_eq!(ConfigError::InvalidServerPort.message(), "Invalid SERVER_PORT");
}

#[test]
fn bad_concurrency_is_refused() {
    let env = EnvOverrides {
        server_port: some("65535"),
        max_concurrent_raiderio: some("three"),
        ..no_env()
    };
    assert_eq!(
        defaults().with_overrides(env).unwrap_err(),
        ConfigError::InvalidMaxConcurrentRaiderio
    );
    assert_eq!(
        ConfigError::InvalidMaxConcurrentRaiderio.message(),
        "Invalid MAX_CONCURRENT_RAIDERIO"
    );
}

#[test]
fn path_of_the_settings_file() {
    assert_eq!(config_path(None), "config.toml");
    assert_eq!(config_path(some("/config/config.toml")), "/config/config.toml");
}
