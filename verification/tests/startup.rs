use mplus_tracker::config::{CharacterRef, PlayerConfig};
use mplus_tracker::startup::{check_token, seed_from_config, SeedStep, TokenError};
use std::collections::{BTreeMap, BTreeSet};

#[test]
fn token_must_be_long_enough() {
    let token = "0123456789abcdef0123456789abcdef".to_string();
    assert_eq!(check_token(Some(token.clone())), Ok(token));
    assert_eq!(check_token(Some("0".repeat(31))), Err(TokenError::TooShort));
    assert!(check_token(Some("é".repeat(16))).is_ok());
    assert_eq!(check_token(None), Err(TokenError::Missing));
}

#[test]
fn token_error_messages() {
    assert_eq!(
        TokenError::Missing.message(),
        "API_TOKEN env var is required. Generate with: openssl rand -hex 32"
    );
    assert_eq!(
        TokenError::TooShort.message(),
        "API_TOKEN is too short — use at least 32 characters"
    );
}

fn player(id: &str, names: &[&str]) -> PlayerConfig {
    PlayerConfig {
        id: id.to_string(),
        label: id.to_uppercase(),
        characters: names
            .iter()
            .map(|name| CharacterRef {
                region: "us".to_string(),
                realm: "area-52".to_string(),
                name: name.to_string(),
            })
            .collect(),
    }
}

#[test]
fn seed_of_all_players() {
    let players =
        vec![player("ash", &["Ashmain", "Ashalt"]), player("bo", &[]), player("cy", &["Cy"])];
    let steps: Vec<String> = seed_from_config(&players)
        .iter()
        .map(|step| match step {
            SeedStep::Player { id, label } => format!("player {} {}", id, label),
            SeedStep::Character { player_id, region, realm, name } => {
                format!("character {} {} {} {}", player_id, region, realm, name)
            }
        })
        .collect();
    assert_eq!(
        steps,
        vec![
            "player ash ASH",
            "character ash us area-52 Ashmain",
            "character ash us area-52 Ashalt",
            "player bo BO",
            "player cy CY",
            "character cy us area-52 Cy",
        ]
    );
}

#[test]
fn nothing_to_seed() {
    assert!(seed_from_config(&[]).is_empty());
}

#[test]
fn second_seeding_changes_nothing() {
    let players = vec![player("ash", &["Ashmain", "Ashalt"]), player("bo", &["Ashalt"])];
    let mut labels = BTreeMap::from([
        ("ash".to_string(), "Old".to_string()),
        ("zoe".to_string(), "Zoe".to_string()),
    ]);
    let mut links = BTreeSet::from([("zoe".to_string(), "Zoe".to_string())]);
    let mut seed = || {
        for step in seed_from_config(&players) {
            match step {
                SeedStep::Player { id, label } => {
                    labels.insert(id, label);
                }
                SeedStep::Character { player_id, name, .. } => {
                    links.insert((player_id, name));
                }
            }
        }
        (labels.clone(), links.clone())
    };
    let first = seed();
    assert_eq!(first.0["ash"], "ASH");
    assert_eq!(first.0["bo"], "BO");
    assert_eq!(first.0["zoe"], "Zoe");
    assert_eq!(first.1.len(), 4);
    assert_eq!(seed(), first);
}
