use mplus_tracker::hash::{digest_text, run_hash, run_preimage};
use sha2::{Digest, Sha256};

fn sample(name: &str, dungeon: &str, id: Option<&str>) -> String {
    run_hash("us", "area-52", name, dungeon, 12, "2024-10-15T20:00:00.000Z", id)
}

#[test]
fn fields_are_joined_by_bars() {
    assert_eq!(
        run_preimage("us", "area-52", "ash", "AK", -3, "2024-10-15T20:00:00Z", "77"),
        "us|area-52|ash|AK|-3|2024-10-15T20:00:00Z|77"
    );
    assert_eq!(run_preimage("", "", "", "", 0, "", ""), "||||0||");
}

#[test]
fn digest_is_written_in_lower_case_hex() {
    assert_eq!(digest_text(&[0x00, 0x0f, 0xa5, 0xff]), "000fa5ff");
    assert_eq!(digest_text(&[]), "");
}

#[test]
fn hash_is_the_sha256_of_the_fields() {
    let mut hasher = Sha256::new();
    hasher.update(b"us|area-52|ashmain|ARAK|12|2024-10-15T20:00:00.000Z|4711");
    let expected: String = hasher.finalize().iter().map(|b| format!("{:02x}", b)).collect();
    assert_eq!(sample("Ashmain", "arak", Some("4711")), expected);
    assert_eq!(expected.len(), 64);
}

#[test]
fn case_of_names_does_not_count() {
    let hash = sample("Ashmain", "ARAK", None);
    assert_eq!(sample("ASHMAIN", "arak", None), hash);
    assert_eq!(
        run_hash("US", "Area-52", "ashmain", "Arak", 12, "2024-10-15T20:00:00.000Z", None),
        hash
    );
    assert_eq!(sample("Ünal", "ARAK", None), sample("ünal", "ARAK", None));
}

#[test]
fn missing_id_hashes_like_an_empty_one() {
    assert_eq!(sample("a", "b", None), sample("a", "b", Some("")));
    assert_ne!(sample("a", "b", None), sample("a", "b", Some("1")));
}

#[test]
fn different_runs_have_different_hashes() {
    let hash = run_hash("us", "r", "n", "D", 10, "t", Some("1"));
    assert_ne!(run_hash("eu", "r", "n", "D", 10, "t", Some("1")), hash);
    assert_ne!(run_hash("us", "s", "n", "D", 10, "t", Some("1")), hash);
    assert_ne!(run_hash("us", "r", "m", "D", 10, "t", Some("1")), hash);
    assert_ne!(run_hash("us", "r", "n", "E", 10, "t", Some("1")), hash);
    assert_ne!(run_hash("us", "r", "n", "D", 11, "t", Some("1")), hash);
    assert_ne!(run_hash("us", "r", "n", "D", 10, "u", Some("1")), hash);
    assert_ne!(run_hash("us", "r", "n", "D", 10, "t", Some("2")), hash);
}

#[test]
fn time_is_hashed_as_it_is_written() {
    let z = run_hash("us", "r", "n", "D", 10, "2024-10-15T20:00:00Z", None);
    assert_ne!(run_hash("us", "r", "n", "D", 10, "2024-10-15T20:00:00+00:00", None), z);
}
