//! The hash by which a run is recognised when it is fetched again.

use crate::text::{
    ascii_lowercase, ascii_uppercase, decimal, digits, int_text, is_ascii, lemma_digits, lowercase,
    str_text, uppercase,
};
use sha2::{Digest, Sha256};
use vstd::prelude::*;
use vstd::utf8::encode_utf8;

verus! {

/// What identifies a run.
pub struct RunIdentity {
    pub region: Seq<char>,
    pub realm: Seq<char>,
    pub name: Seq<char>,
    pub dungeon_short: Seq<char>,
    pub key_level: int,
    pub completed_at: Seq<char>,
    /// Empty where the run has no identifier of its own.
    pub source_run_id: Seq<char>,
}

/// A field, a separator, and what follows.
pub open spec fn field(s: Seq<char>, rest: Seq<char>) -> Seq<char> {
    s + "|"@ + rest
}

/// The fields of a run, separated by bars.
pub open spec fn run_text(run: RunIdentity) -> Seq<char> {
    field(
        run.region,
        field(
            run.realm,
            field(
                run.name,
                field(
                    run.dungeon_short,
                    field(decimal(run.key_level), field(run.completed_at, run.source_run_id)),
                ),
            ),
        ),
    )
}

/// The identity under which a run is hashed: the case of the character's region, realm
/// and name and of the dungeon does not count.
pub open spec fn run_identity(
    region: Seq<char>,
    realm: Seq<char>,
    name: Seq<char>,
    dungeon_short: Seq<char>,
    key_level: int,
    completed_at: Seq<char>,
    source_run_id: Option<Seq<char>>,
) -> RunIdentity {
    RunIdentity {
        region: lowercase(region),
        realm: lowercase(realm),
        name: lowercase(name),
        dungeon_short: uppercase(dungeon_short),
        key_level,
        completed_at,
        source_run_id: match source_run_id {
            Some(id) => id,
            None => Seq::empty(),
        },
    }
}

/// What `sha2::Sha256` makes of some bytes.
pub uninterp spec fn sha256(data: Seq<u8>) -> Seq<u8>;

/// `sha2::Sha256` over some bytes. What is claimed is that the bytes alone decide the
/// digest, and that it has 32 bytes.
#[verifier::external_body]
fn sha256_digest(data: &[u8]) -> (r: Vec<u8>)
    ensures
        r@ == sha256(data@),
        r@.len() == 32,
{
    let mut hasher = Sha256::new();
    hasher.update(data);
    hasher.finalize().to_vec()
}

/// The digit of a number below 16, in lower case.
pub open spec fn hex_digit(n: int) -> char {
    if n < 10 {
        (48 + n) as char
    } else {
        (87 + n) as char
    }
}

/// Two digits for each byte.
pub open spec fn hex_text(data: Seq<u8>) -> Seq<char> {
    Seq::new(
        2 * data.len(),
        |i: int|
            hex_digit(
                if i % 2 == 0 {
                    data[i / 2] as int / 16
                } else {
                    data[i / 2] as int % 16
                },
            ),
    )
}

/// `hex::encode`: two lower-case hexadecimal digits for each byte.
#[verifier::external_body]
fn hex_encode(data: &[u8]) -> (r: String)
    ensures
        r@ == hex_text(data@),
{
    hex::encode(data)
}

/// The fields of a run whose texts are already in the case that counts, separated by
/// bars.
pub fn run_preimage(
    region: &str,
    realm: &str,
    name: &str,
    dungeon_short: &str,
    key_level: i64,
    completed_at: &str,
    source_run_id: &str,
) -> (r: String)
    ensures
        r@ == run_text(
            RunIdentity {
                region: region@,
                realm: realm@,
                name: name@,
                dungeon_short: dungeon_short@,
                key_level: key_level as int,
                completed_at: completed_at@,
                source_run_id: source_run_id@,
            },
        ),
{
    let mut r = String::from(region);
    r.append("|");
    r.append(realm);
    r.append("|");
    r.append(name);
    r.append("|");
    r.append(dungeon_short);
    r.append("|");
    r.append(int_text(key_level).as_str());
    r.append("|");
    r.append(completed_at);
    r.append("|");
    r.append(source_run_id);
    r
}

/// The text of a digest, in hexadecimal.
pub fn digest_text(digest: &[u8]) -> (r: String)
    ensures
        r@ == hex_text(digest@),
{
    hex_encode(digest)
}

/// A hexadecimal SHA-256 hash that identifies a run of a character.
pub fn run_hash(
    region: &str,
    realm: &str,
    name: &str,
    dungeon_short: &str,
    key_level: i64,
    completed_at: &str,
    source_run_id: Option<&str>,
) -> (r: String)
    ensures
        r@ == run_hash_text(
            run_identity(
                region@,
                realm@,
                name@,
                dungeon_short@,
                key_level as int,
                completed_at@,
                str_text(source_run_id),
            ),
        ),
        r@.len() == 64,
        is_ascii(region@) && is_ascii(realm@) && is_ascii(name@) && is_ascii(dungeon_short@)
            ==> r@ == run_hash_text(
            RunIdentity {
                region: ascii_lowercase(region@),
                realm: ascii_lowercase(realm@),
                name: ascii_lowercase(name@),
                dungeon_short: ascii_uppercase(dungeon_short@),
                key_level: key_level as int,
                completed_at: completed_at@,
                source_run_id: match str_text(source_run_id) {
                    Some(id) => id,
                    None => Seq::empty(),
                },
            },
        ),
{
    let id = match source_run_id {
        Some(id) => id,
        None => "",
    };
    proof {
        reveal_strlit("");
        assert(""@ == Seq::<char>::empty());
    }
    let preimage = run_preimage(
        region.to_lowercase().as_str(),
        realm.to_lowercase().as_str(),
        name.to_lowercase().as_str(),
        dungeon_short.to_uppercase().as_str(),
        key_level,
        completed_at,
        id,
    );
    let digest = sha256_digest(preimage.as_str().as_bytes());
    digest_text(digest.as_slice())
}

/// The hash of a run.
pub open spec fn run_hash_text(run: RunIdentity) -> Seq<char> {
    hex_text(sha256(encode_utf8(run_text(run))))
}

/// No bar occurs in `s`.
pub open spec fn no_bar(s: Seq<char>) -> bool {
    forall|i: int| 0 <= i < s.len() ==> #[trigger] s[i] != '|'
}

/// No bar occurs in a run's fields, but for its own identifier, which may hold some.
pub open spec fn fields_have_no_bar(run: RunIdentity) -> bool {
    &&& no_bar(run.region)
    &&& no_bar(run.realm)
    &&& no_bar(run.name)
    &&& no_bar(run.dungeon_short)
    &&& no_bar(run.completed_at)
}

proof fn lemma_field_splits(a: Seq<char>, x: Seq<char>, b: Seq<char>, y: Seq<char>)
    requires
        no_bar(a),
        no_bar(b),
        field(a, x) == field(b, y),
    ensures
        a == b,
        x == y,
{
    reveal_strlit("|");
    let f = field(a, x);
    let g = field(b, y);
    assert(f[a.len() as int] == '|');
    assert(g[b.len() as int] == '|');
    if a.len() < b.len() {
        assert(g[a.len() as int] == b[a.len() as int]);
    }
    if b.len() < a.len() {
        assert(f[b.len() as int] == a[b.len() as int]);
    }
    assert(f.subrange(0, a.len() as int) == a);
    assert(g.subrange(0, b.len() as int) == b);
    assert(f.skip(a.len() as int + 1) == x);
    assert(g.skip(b.len() as int + 1) == y);
}

proof fn lemma_digits_injective(a: nat, b: nat)
    requires
        digits(a) == digits(b),
    ensures
        a == b,
    decreases a,
{
    lemma_digits(a / 10);
    lemma_digits(b / 10);
    if a >= 10 && b >= 10 {
        assert(digits(a).drop_last() == digits(a / 10));
        assert(digits(b).drop_last() == digits(b / 10));
        lemma_digits_injective(a / 10, b / 10);
        assert(digits(a).last() == (48 + a % 10) as char);
        assert(digits(b).last() == (48 + b % 10) as char);
    } else if a < 10 && b < 10 {
        assert(digits(a)[0] == (48 + a) as char);
        assert(digits(b)[0] == (48 + b) as char);
    } else if a >= 10 {
        assert(digits(a) == digits(a / 10).push((48 + a % 10) as char));
    } else {
        assert(digits(b) == digits(b / 10).push((48 + b % 10) as char));
    }
}

proof fn lemma_decimal(a: int, b: int)
    ensures
        no_bar(decimal(a)),
        decimal(a) == decimal(b) ==> a == b,
{
    let x: nat = if a < 0 {
        (-a) as nat
    } else {
        a as nat
    };
    let y: nat = if b < 0 {
        (-b) as nat
    } else {
        b as nat
    };
    lemma_digits(x);
    lemma_digits(y);
    if decimal(a) == decimal(b) {
        assert(decimal(a)[0] == decimal(b)[0]);
        if a < 0 && b < 0 {
            assert(decimal(a).skip(1) == digits(x));
            assert(decimal(b).skip(1) == digits(y));
        }
        lemma_digits_injective(x, y);
    }
}

/// Two runs whose hashed bytes agree are the same run, as long as no bar occurs in
/// their fields.
pub proof fn hashed_bytes_identify_the_run(a: RunIdentity, b: RunIdentity)
    requires
        fields_have_no_bar(a),
        fields_have_no_bar(b),
        encode_utf8(run_text(a)) == encode_utf8(run_text(b)),
    ensures
        a == b,
{
    broadcast use vstd::utf8::encode_utf8_decode_utf8;

    assert(vstd::utf8::decode_utf8(encode_utf8(run_text(a))) == run_text(a));
    assert(vstd::utf8::decode_utf8(encode_utf8(run_text(b))) == run_text(b));
    let a6 = field(a.completed_at, a.source_run_id);
    let b6 = field(b.completed_at, b.source_run_id);
    let a5 = field(decimal(a.key_level), a6);
    let b5 = field(decimal(b.key_level), b6);
    let a4 = field(a.dungeon_short, a5);
    let b4 = field(b.dungeon_short, b5);
    let a3 = field(a.name, a4);
    let b3 = field(b.name, b4);
    let a2 = field(a.realm, a3);
    let b2 = field(b.realm, b3);
    lemma_field_splits(a.region, a2, b.region, b2);
    lemma_field_splits(a.realm, a3, b.realm, b3);
    lemma_field_splits(a.name, a4, b.name, b4);
    lemma_field_splits(a.dungeon_short, a5, b.dungeon_short, b5);
    lemma_decimal(a.key_level, b.key_level);
    lemma_decimal(b.key_level, a.key_level);
    lemma_field_splits(decimal(a.key_level), a6, decimal(b.key_level), b6);
    lemma_field_splits(a.completed_at, a.source_run_id, b.completed_at, b.source_run_id);
}

/// A run has the same hash in whatever case its character and dungeon are written.
pub proof fn case_does_not_change_the_hash(
    region: (Seq<char>, Seq<char>),
    realm: (Seq<char>, Seq<char>),
    name: (Seq<char>, Seq<char>),
    dungeon_short: (Seq<char>, Seq<char>),
    key_level: int,
    completed_at: Seq<char>,
    source_run_id: Option<Seq<char>>,
)
    requires
        lowercase(region.0) == lowercase(region.1),
        lowercase(realm.0) == lowercase(realm.1),
        lowercase(name.0) == lowercase(name.1),
        uppercase(dungeon_short.0) == uppercase(dungeon_short.1),
    ensures
        run_hash_text(
            run_identity(
                region.0,
                realm.0,
                name.0,
                dungeon_short.0,
                key_level,
                completed_at,
                source_run_id,
            ),
        ) == run_hash_text(
            run_identity(
                region.1,
                realm.1,
                name.1,
                dungeon_short.1,
                key_level,
                completed_at,
                source_run_id,
            ),
        ),
{
}

/// A run is hashed from its character's region, realm and name in lower case, its dungeon in
/// upper case, its level in decimal, its time as it is written, and its identifier where it
/// has one, with a bar between each two.
pub proof fn hash_covers_every_field(
    region: Seq<char>,
    realm: Seq<char>,
    name: Seq<char>,
    dungeon_short: Seq<char>,
    key_level: int,
    completed_at: Seq<char>,
    source_run_id: Option<Seq<char>>,
)
    ensures
        run_hash_text(
            run_identity(
                region,
                realm,
                name,
                dungeon_short,
                key_level,
                completed_at,
                source_run_id,
            ),
        ) == hex_text(
            sha256(
                encode_utf8(
                    lowercase(region) + "|"@ + lowercase(realm) + "|"@ + lowercase(name) + "|"@
                        + uppercase(dungeon_short) + "|"@ + decimal(key_level) + "|"@
                        + completed_at + "|"@ + (if source_run_id is Some {
                        source_run_id->0
                    } else {
                        Seq::empty()
                    }),
                ),
            ),
        ),
{
    let id = if source_run_id is Some {
        source_run_id->0
    } else {
        Seq::empty()
    };
    let run = run_identity(
        region,
        realm,
        name,
        dungeon_short,
        key_level,
        completed_at,
        source_run_id,
    );
    assert(run_text(run) == lowercase(region) + "|"@ + lowercase(realm) + "|"@ + lowercase(name)
        + "|"@ + uppercase(dungeon_short) + "|"@ + decimal(key_level) + "|"@ + completed_at + "|"@
        + id);
}

/// Two characters of a digest's text stand for each byte, the higher half first.
pub proof fn digest_text_spells_its_bytes(data: Seq<u8>, i: int)
    requires
        0 <= i < data.len(),
    ensures
        hex_text(data).len() == 2 * data.len(),
        hex_text(data)[2 * i] == "0123456789abcdef"@[data[i] as int / 16],
        hex_text(data)[2 * i + 1] == "0123456789abcdef"@[data[i] as int % 16],
{
    reveal_strlit("0123456789abcdef");
    assert((2 * i) / 2 == i && (2 * i) % 2 == 0);
    assert((2 * i + 1) / 2 == i && (2 * i + 1) % 2 == 1);
}

} // verus!
