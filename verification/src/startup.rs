//! What the service does before it serves: it checks its token and seeds its database.

use crate::config::{CharacterRef, PlayerConfig};
use crate::tables::Tables;
use vstd::prelude::*;
use vstd::utf8::encode_utf8;

verus! {

/// The fewest bytes that the token of the service may have.
pub const MIN_TOKEN_LEN: usize = 32;

/// Why a token does not do.
#[derive(Clone, Copy, Debug, PartialEq, Eq, Structural)]
pub enum TokenError {
    Missing,
    TooShort,
}

impl TokenError {
    pub open spec fn text(self) -> Seq<char> {
        match self {
            TokenError::Missing =>
                "API_TOKEN env var is required. Generate with: openssl rand -hex 32"@,
            TokenError::TooShort => "API_TOKEN is too short — use at least 32 characters"@,
        }
    }

    pub fn message(&self) -> (r: String)
        ensures
            r@ == self.text(),
    {
        match self {
            TokenError::Missing => String::from(
                "API_TOKEN env var is required. Generate with: openssl rand -hex 32",
            ),
            TokenError::TooShort => String::from(
                "API_TOKEN is too short — use at least 32 characters",
            ),
        }
    }
}

/// The token from the environment, where it is there and long enough.
pub fn check_token(from_env: Option<String>) -> (r: Result<String, TokenError>)
    ensures
        match r {
            Ok(token) => from_env == Some(token) && encode_utf8(token@).len() >= MIN_TOKEN_LEN,
            Err(TokenError::Missing) => from_env is None,
            Err(TokenError::TooShort) => from_env matches Some(token) && encode_utf8(token@).len()
                < MIN_TOKEN_LEN,
        },
        r is Ok <==> from_env is Some && encode_utf8(from_env->0@).len() >= 32,
{
    match from_env {
        Some(token) => {
            if token.as_str().as_bytes().len() < MIN_TOKEN_LEN {
                return Err(TokenError::TooShort);
            }
            Ok(token)
        },
        None => Err(TokenError::Missing),
    }
}

/// A step of seeding the database.
#[derive(Debug)]
pub enum SeedStep {
    /// Insert the player with this id and label, or update the label.
    Player { id: String, label: String },
    /// Insert the character where it is missing, and link it to the player.
    Character { player_id: String, region: String, realm: String, name: String },
}

/// What a `SeedStep` says.
pub enum Seed {
    Player { id: Seq<char>, label: Seq<char> },
    Character { player_id: Seq<char>, region: Seq<char>, realm: Seq<char>, name: Seq<char> },
}

impl View for SeedStep {
    type V = Seed;

    open spec fn view(&self) -> Seed {
        match self {
            SeedStep::Player { id, label } => Seed::Player { id: id@, label: label@ },
            SeedStep::Character { player_id, region, realm, name } => Seed::Character {
                player_id: player_id@,
                region: region@,
                realm: realm@,
                name: name@,
            },
        }
    }
}

pub open spec fn character_seed(player_id: Seq<char>, character: CharacterRef) -> Seed {
    Seed::Character {
        player_id,
        region: character.region@,
        realm: character.realm@,
        name: character.name@,
    }
}

/// The seed of a player: the player, then each of their characters.
pub open spec fn player_seeds(player: PlayerConfig) -> Seq<Seed> {
    seq![Seed::Player { id: player.id@, label: player.label@ }] + player.characters@.map_values(
        |character: CharacterRef| character_seed(player.id@, character),
    )
}

/// The seed of all players, one after the other.
pub open spec fn seeds(players: Seq<PlayerConfig>) -> Seq<Seed>
    decreases players.len(),
{
    if players.len() == 0 {
        Seq::empty()
    } else {
        seeds(players.drop_last()) + player_seeds(players.last())
    }
}

/// What some steps say.
pub open spec fn seeds_of(steps: Seq<SeedStep>) -> Seq<Seed> {
    Seq::new(steps.len(), |i: int| steps[i]@)
}

/// The steps that put every configured player and character into the database.
pub fn seed_from_config(players: &[PlayerConfig]) -> (r: Vec<SeedStep>)
    ensures
        seeds_of(r@) == seeds(players@),
{
    let mut steps: Vec<SeedStep> = Vec::new();
    let mut i: usize = 0;
    assert(seeds_of(steps@) == seeds(players@.take(0)));
    while i < players.len()
        invariant
            i <= players@.len(),
            seeds_of(steps@) == seeds(players@.take(i as int)),
        decreases players@.len() - i,
    {
        let player = &players[i];
        let ghost before = seeds_of(steps@);
        let ghost head = seq![Seed::Player { id: player.id@, label: player.label@ }];
        steps.push(SeedStep::Player { id: player.id.clone(), label: player.label.clone() });
        let mut j: usize = 0;
        assert(seeds_of(steps@) == before + head);
        while j < player.characters.len()
            invariant
                j <= player.characters@.len(),
                seeds_of(steps@) == before + head + Seq::new(
                    j as nat,
                    |k: int| character_seed(player.id@, player.characters@[k]),
                ),
            decreases player.characters@.len() - j,
        {
            let character = &player.characters[j];
            let ghost so_far = seeds_of(steps@);
            steps.push(
                SeedStep::Character {
                    player_id: player.id.clone(),
                    region: character.region.clone(),
                    realm: character.realm.clone(),
                    name: character.name.clone(),
                },
            );
            assert(seeds_of(steps@) == so_far.push(character_seed(player.id@, *character)));
            j = j + 1;
        }
        assert(head + Seq::new(
            j as nat,
            |k: int| character_seed(player.id@, player.characters@[k]),
        ) == player_seeds(*player));
        assert(seeds_of(steps@) == before + player_seeds(*player));
        assert(players@.take(i as int + 1).drop_last() == players@.take(i as int));
        i = i + 1;
    }
    assert(players@.take(i as int) == players@);
    steps
}

/// Every configured character is seeded, after the player that it belongs to.
pub proof fn every_character_is_seeded(players: Seq<PlayerConfig>, i: int, j: int) -> (at: (
    int,
    int,
))
    requires
        0 <= i < players.len(),
        0 <= j < players[i].characters@.len(),
    ensures
        0 <= at.0 < at.1 < seeds(players).len(),
        seeds(players)[at.0] == (Seed::Player { id: players[i].id@, label: players[i].label@ }),
        seeds(players)[at.1] == (Seed::Character {
            player_id: players[i].id@,
            region: players[i].characters@[j].region@,
            realm: players[i].characters@[j].realm@,
            name: players[i].characters@[j].name@,
        }),
    decreases players.len(),
{
    let before = seeds(players.drop_last());
    if i == players.len() - 1 {
        (before.len() as int, before.len() + 1 + j)
    } else {
        every_character_is_seeded(players.drop_last(), i, j)
    }
}

proof fn lemma_seeds_start_with(players: Seq<PlayerConfig>, n: int)
    requires
        0 <= n <= players.len(),
    ensures
        seeds(players.take(n)).is_prefix_of(seeds(players)),
    decreases players.len(),
{
    if n < players.len() {
        lemma_seeds_start_with(players.drop_last(), n);
        assert(players.drop_last().take(n) == players.take(n));
    } else {
        assert(players.take(n) == players);
    }
}

/// The steps are those of the players, one player after the other: behind the steps of the
/// players before it come a player's own, then those of the next, and behind those of the
/// last nothing.
pub proof fn seeds_hold_the_players_in_turn(players: Seq<PlayerConfig>, i: int)
    requires
        0 <= i < players.len(),
    ensures
        ({
            let start = seeds(players.take(i)).len() as int;
            let end = seeds(players.take(i + 1)).len() as int;
            &&& end == start + 1 + players[i].characters@.len()
            &&& end <= seeds(players).len()
            &&& seeds(players).subrange(start, end) == player_seeds(players[i])
            &&& i + 1 == players.len() ==> end == seeds(players).len()
        }),
{
    lemma_seeds_start_with(players, i + 1);
    assert(players.take(i + 1).drop_last() == players.take(i));
    let start = seeds(players.take(i)).len() as int;
    let end = seeds(players.take(i + 1)).len() as int;
    let own = player_seeds(players[i]);
    assert(seeds(players.take(i + 1)) == seeds(players.take(i)) + own);
    assert(seeds(players).subrange(start, end) == own) by {
        assert forall|k: int| 0 <= k < own.len() implies seeds(players).subrange(start, end)[k]
            == #[trigger] own[k] by {
            assert(seeds(players.take(i + 1))[start + k] == own[k]);
        }
    }
    if i + 1 == players.len() {
        assert(players.take(i + 1) == players);
    }
}

/// Every step is a configured player's, or puts in one of that player's characters.
pub proof fn seeds_hold_nothing_else(players: Seq<PlayerConfig>, k: int) -> (i: int)
    requires
        0 <= k < seeds(players).len(),
    ensures
        0 <= i < players.len(),
        player_seeds(players[i]).contains(seeds(players)[k]),
    decreases players.len(),
{
    let before = seeds(players.drop_last());
    if k < before.len() {
        seeds_hold_nothing_else(players.drop_last(), k)
    } else {
        assert(seeds(players)[k] == player_seeds(players.last())[k - before.len()]);
        players.len() - 1
    }
}

/// The steps that put in players.
pub open spec fn player_steps(steps: Seq<Seed>) -> Seq<Seed> {
    steps.filter(|step: Seed| step is Player)
}

proof fn lemma_no_player_steps(steps: Seq<Seed>)
    requires
        forall|i: int| 0 <= i < steps.len() ==> #[trigger] steps[i] is Character,
    ensures
        player_steps(steps) == Seq::<Seed>::empty(),
    decreases steps.len(),
{
    reveal(Seq::filter);
    if steps.len() > 0 {
        lemma_no_player_steps(steps.drop_last());
    }
}

/// There is one step for each configured player, in order.
pub proof fn each_player_is_seeded_once(players: Seq<PlayerConfig>)
    ensures
        player_steps(seeds(players)) == players.map_values(
            |player: PlayerConfig| Seed::Player { id: player.id@, label: player.label@ },
        ),
    decreases players.len(),
{
    reveal(Seq::filter);
    let one = |player: PlayerConfig| Seed::Player { id: player.id@, label: player.label@ };
    if players.len() > 0 {
        let player = players.last();
        let head = seq![one(player)];
        let tail = player.characters@.map_values(
            |character: CharacterRef| character_seed(player.id@, character),
        );
        let is_player = |step: Seed| step is Player;
        each_player_is_seeded_once(players.drop_last());
        lemma_no_player_steps(tail);
        assert(head.drop_last() == Seq::<Seed>::empty());
        assert(player_steps(head) == head);
        Seq::filter_distributes_over_add(head, tail, is_player);
        Seq::filter_distributes_over_add(
            seeds(players.drop_last()),
            player_seeds(player),
            is_player,
        );
        assert(players.map_values(one) == players.drop_last().map_values(one).push(one(player)));
        assert(player_steps(seeds(players)) == players.map_values(one));
    } else {
        assert(players.map_values(one) == Seq::<Seed>::empty());
    }
}

// What seeding makes of the tables.

pub open spec fn seed_key(step: Seed) -> (Seq<char>, Seq<char>, Seq<char>) {
    (step->region, step->realm, step->name)
}

/// What tables that hold `before` hold once the first `n` steps were taken.
pub open spec fn tables_with_seeds(steps: Seq<Seed>, before: Tables, n: nat) -> Tables
    decreases n,
{
    if n == 0 {
        before
    } else {
        let tables = tables_with_seeds(steps, before, (n - 1) as nat);
        match steps[n - 1] {
            Seed::Player { id, label } => tables.upsert_player(id, label),
            Seed::Character { player_id, region, realm, name } => tables.upsert_character(
                (region, realm, name),
                None,
                None,
            ).link(player_id, (region, realm, name)),
        }
    }
}

/// Steps that give a player's label give the same one.
spec fn are_consistent(steps: Seq<Seed>) -> bool {
    forall|i: int, j: int|
        0 <= i < steps.len() && 0 <= j < steps.len() && (#[trigger] steps[i] is Player) && (
        #[trigger] steps[j] is Player) && steps[i]->id == steps[j]->id ==> steps[i]->label
            == steps[j]->label
}

/// A step puts in the player with this id.
pub open spec fn seeds_player(steps: Seq<Seed>, n: nat, id: Seq<char>) -> bool {
    exists|i: int| 0 <= i < n && (#[trigger] steps[i] is Player) && steps[i]->id == id
}

/// A step puts in this character and links it to this player.
pub open spec fn seeds_link(
    steps: Seq<Seed>,
    n: nat,
    player_id: Seq<char>,
    key: (Seq<char>, Seq<char>, Seq<char>),
) -> bool {
    exists|i: int|
        0 <= i < n && (#[trigger] steps[i] is Character) && steps[i]->player_id == player_id
            && seed_key(steps[i]) == key
}

/// A step puts in this character.
pub open spec fn seeds_character(
    steps: Seq<Seed>,
    n: nat,
    key: (Seq<char>, Seq<char>, Seq<char>),
) -> bool {
    exists|i: int| 0 <= i < n && (#[trigger] steps[i] is Character) && seed_key(steps[i]) == key
}

/// `after` is `before` with what the first `n` steps put in, and with nothing lost.
pub open spec fn is_seeded(steps: Seq<Seed>, n: nat, before: Tables, after: Tables) -> bool {
    &&& after.runs == before.runs
    &&& forall|id: Seq<char>| #[trigger]
        after.players.dom().contains(id) <==> before.players.dom().contains(id) || seeds_player(
            steps,
            n,
            id,
        )
    &&& forall|id: Seq<char>|
        before.players.dom().contains(id) && !seeds_player(steps, n, id)
            ==> #[trigger] after.players[id] == before.players[id]
    &&& forall|key: (Seq<char>, Seq<char>, Seq<char>)| #[trigger]
        after.characters.dom().contains(key) <==> before.characters.dom().contains(key)
            || seeds_character(steps, n, key)
    &&& forall|key: (Seq<char>, Seq<char>, Seq<char>)|
        before.characters.dom().contains(key) ==> #[trigger] after.characters[key]
            == before.characters[key]
    &&& forall|link: (Seq<char>, (Seq<char>, Seq<char>, Seq<char>))| #[trigger]
        after.links.contains(link) <==> before.links.contains(link) || seeds_link(
            steps,
            n,
            link.0,
            link.1,
        )
}

proof fn lemma_seeded(steps: Seq<Seed>, before: Tables, n: nat)
    ensures
        is_seeded(steps, n, before, tables_with_seeds(steps, before, n)),
    decreases n,
{
    if n > 0 {
        let m = (n - 1) as nat;
        let step = steps[n - 1];
        let tables = tables_with_seeds(steps, before, m);
        let after = tables_with_seeds(steps, before, n);
        lemma_seeded(steps, before, m);
        assert forall|id: Seq<char>| #[trigger] seeds_player(steps, n, id) <==> seeds_player(
            steps,
            m,
            id,
        ) || (step is Player && step->id == id) by {}
        assert forall|key: (Seq<char>, Seq<char>, Seq<char>)| #[trigger]
            seeds_character(steps, n, key) <==> seeds_character(steps, m, key) || (step is Character
                && seed_key(step) == key) by {}
        assert forall|player_id: Seq<char>, key: (Seq<char>, Seq<char>, Seq<char>)| #[trigger]
            seeds_link(steps, n, player_id, key) <==> seeds_link(steps, m, player_id, key) || (
            step is Character && step->player_id == player_id && seed_key(step) == key) by {}
        assert(is_seeded(steps, n, before, after));
    }
}

proof fn lemma_seeded_label(steps: Seq<Seed>, before: Tables, n: nat, i: int)
    requires
        are_consistent(steps),
        0 <= i < n <= steps.len(),
        steps[i] is Player,
    ensures
        tables_with_seeds(steps, before, n).players.dom().contains(steps[i]->id),
        tables_with_seeds(steps, before, n).players[steps[i]->id] == steps[i]->label,
    decreases n,
{
    if i < n - 1 {
        lemma_seeded_label(steps, before, (n - 1) as nat, i);
        assert(steps[n - 1] is Player || steps[n - 1] is Character);
    }
}

proof fn lemma_reseeding_changes_nothing(steps: Seq<Seed>, before: Tables, n: nat)
    requires
        are_consistent(steps),
        n <= steps.len(),
    ensures
        tables_with_seeds(steps, tables_with_seeds(steps, before, steps.len()), n)
            == tables_with_seeds(steps, before, steps.len()),
    decreases n,
{
    if n > 0 {
        let after = tables_with_seeds(steps, before, steps.len());
        let step = steps[n - 1];
        lemma_reseeding_changes_nothing(steps, before, (n - 1) as nat);
        lemma_seeded(steps, before, steps.len());
        match step {
            Seed::Player { id, label } => {
                lemma_seeded_label(steps, before, steps.len(), n - 1);
                assert(after.upsert_player(id, label) =~= after);
            },
            Seed::Character { player_id, region, realm, name } => {
                let key = (region, realm, name);
                assert(seed_key(step) == key);
                assert(seeds_character(steps, steps.len(), key));
                assert(seeds_link(steps, steps.len(), player_id, key));
                assert(after.characters.dom().contains(key));
                assert(after.links.contains((player_id, key)));
                assert(after.upsert_character(key, None, None) =~= after);
                assert(after.link(player_id, key) =~= after);
            },
        }
    }
}

/// The configured players have different ids.
pub open spec fn have_different_ids(players: Seq<PlayerConfig>) -> bool {
    forall|i: int, j: int|
        0 <= i < j < players.len() ==> (#[trigger] players[i]).id@ != (#[trigger] players[j]).id@
}

proof fn lemma_player_step(players: Seq<PlayerConfig>, k: int) -> (i: int)
    requires
        0 <= k < seeds(players).len(),
        seeds(players)[k] is Player,
    ensures
        0 <= i < players.len(),
        seeds(players)[k] == (Seed::Player { id: players[i].id@, label: players[i].label@ }),
{
    let i = seeds_hold_nothing_else(players, k);
    let at = choose|at: int|
        0 <= at < player_seeds(players[i]).len() && #[trigger] player_seeds(players[i])[at]
            == seeds(players)[k];
    if at > 0 {
        assert(player_seeds(players[i])[at] is Character);
    }
    i
}

proof fn lemma_seeds_are_consistent(players: Seq<PlayerConfig>)
    requires
        have_different_ids(players),
    ensures
        are_consistent(seeds(players)),
{
    let steps = seeds(players);
    assert forall|k: int, l: int|
        0 <= k < steps.len() && 0 <= l < steps.len() && (#[trigger] steps[k] is Player) && (
        #[trigger] steps[l] is Player) && steps[k]->id == steps[l]->id implies steps[k]->label
        == steps[l]->label by {
        let i = lemma_player_step(players, k);
        let j = lemma_player_step(players, l);
        if i < j {
            assert(players[i].id@ != players[j].id@);
        }
        if j < i {
            assert(players[j].id@ != players[i].id@);
        }
    }
}

/// Seeding puts in every configured player with their label, and every configured character
/// with its link. What the tables held before stays, but for the labels of configured
/// players, and nothing else is put in. To seed again changes nothing.
pub proof fn seeding_fills_the_tables(players: Seq<PlayerConfig>, before: Tables)
    requires
        have_different_ids(players),
    ensures
        ({
            let steps = seeds(players);
            let after = tables_with_seeds(steps, before, steps.len());
            &&& forall|i: int|
                #![trigger players[i]]
                0 <= i < players.len() ==> {
                    &&& after.players.dom().contains(players[i].id@)
                    &&& after.players[players[i].id@] == players[i].label@
                }
            &&& forall|i: int, j: int|
                #![trigger players[i].characters@[j]]
                0 <= i < players.len() && 0 <= j < players[i].characters@.len() ==> {
                    let c = players[i].characters@[j];
                    let key = (c.region@, c.realm@, c.name@);
                    &&& after.characters.dom().contains(key)
                    &&& after.links.contains((players[i].id@, key))
                }
            &&& is_seeded(steps, steps.len(), before, after)
            &&& tables_with_seeds(steps, after, steps.len()) == after
        }),
{
    let steps = seeds(players);
    let after = tables_with_seeds(steps, before, steps.len());
    lemma_seeds_are_consistent(players);
    lemma_seeded(steps, before, steps.len());
    lemma_reseeding_changes_nothing(steps, before, steps.len());
    assert forall|i: int|
        #![trigger players[i]]
        0 <= i < players.len() implies after.players.dom().contains(players[i].id@)
        && after.players[players[i].id@] == players[i].label@ by {
        seeds_hold_the_players_in_turn(players, i);
        let start = seeds(players.take(i)).len() as int;
        let end = seeds(players.take(i + 1)).len() as int;
        assert(steps.subrange(start, end)[0] == player_seeds(players[i])[0]);
        lemma_seeded_label(steps, before, steps.len(), start);
    }
    assert forall|i: int, j: int|
        #![trigger players[i].characters@[j]]
        0 <= i < players.len() && 0 <= j < players[i].characters@.len() implies {
        let c = players[i].characters@[j];
        let key = (c.region@, c.realm@, c.name@);
        &&& after.characters.dom().contains(key)
        &&& after.links.contains((players[i].id@, key))
    } by {
        let (_, at) = every_character_is_seeded(players, i, j);
        let c = players[i].characters@[j];
        let key = (c.region@, c.realm@, c.name@);
        assert(steps[at] is Character && seed_key(steps[at]) == key);
        assert(seeds_character(steps, steps.len(), key));
        assert(seeds_link(steps, steps.len(), players[i].id@, key));
    }
}

/// Each step says what it holds.
pub proof fn steps_say_what_they_hold(steps: Seq<SeedStep>, i: int)
    requires
        0 <= i < steps.len(),
    ensures
        seeds_of(steps).len() == steps.len(),
        match steps[i] {
            SeedStep::Player { id, label } => seeds_of(steps)[i] == (Seed::Player {
                id: id@,
                label: label@,
            }),
            SeedStep::Character { player_id, region, realm, name } => seeds_of(steps)[i] == (
            Seed::Character {
                player_id: player_id@,
                region: region@,
                realm: realm@,
                name: name@,
            }),
        },
{
}

/// A player's steps are the player and then the characters in their order.
pub proof fn a_player_is_followed_by_its_characters(player: PlayerConfig)
    ensures
        player_seeds(player).len() == 1 + player.characters@.len(),
        player_seeds(player)[0] == (Seed::Player { id: player.id@, label: player.label@ }),
        forall|j: int|
            #![trigger player.characters@[j]]
            0 <= j < player.characters@.len() ==> player_seeds(player)[1 + j] == (Seed::Character {
                player_id: player.id@,
                region: player.characters@[j].region@,
                realm: player.characters@[j].realm@,
                name: player.characters@[j].name@,
            }),
{
}

/// A token that does not do is refused with the reason.
pub proof fn refused_tokens_say_why()
    ensures
        TokenError::Missing.text()
            == "API_TOKEN env var is required. Generate with: openssl rand -hex 32"@,
        TokenError::TooShort.text() == "API_TOKEN is too short — use at least 32 characters"@,
{
}

} // verus!
