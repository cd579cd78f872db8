//! What updating a guild, a character or all characters decides between its calls to
//! Raider.IO and to the database.

use crate::calendar::{
    day_has_a_date, day_number, day_of, days_in_month, is_months_before, months_before,
    months_before_is_unique, second_of_day, three_months_span, valid_date,
};
use crate::hash::{
    hash_covers_every_field, hashed_bytes_identify_the_run, hex_text, no_bar, run_hash,
    run_hash_text, run_identity, run_text, sha256,
};
use crate::instant::{
    is_clock_reading, minus_months, parse_rfc3339, read_clock, rfc3339_reading, Moment, UtcInstant,
};
use crate::models::{
    text_of, CharacterSummary, RioCharacterProfile, RioGuildMember, RioGuildProfile, RioRun,
    RioRunId, Run, SummaryText,
};
use crate::raiderio::{is_missing_character, rate_limit_is_no_missing_character};
use crate::tables::Tables;
use crate::text::{contains, decimal, join, lowercase, occurs_in, str_text, uppercase};
use vstd::prelude::*;
use vstd::utf8::encode_utf8;

verus! {

/// How many months old the last crawl of a character must be for its runs to be worth
/// fetching again.
pub const STALE_AFTER_MONTHS: u32 = 3;

/// `at` is three calendar months before `now`, at the same time of day.
pub open spec fn is_stale_limit(now: Moment, at: Moment) -> bool {
    &&& at.valid()
    &&& is_months_before(day_of(now.secs), STALE_AFTER_MONTHS as int, day_of(at.secs))
    &&& second_of_day(at.secs) == second_of_day(now.secs)
    &&& at.nanos == now.nanos
}

/// A crawl at `crawled` is at most three calendar months old at `now`.
pub open spec fn fresh(crawled: Moment, now: Moment) -> bool {
    exists|limit: Moment| #[trigger] is_stale_limit(now, limit) && limit.up_to(crawled)
}

/// Whether a crawl at `crawled` is at most three calendar months old at `now`.
pub fn is_fresh(crawled: UtcInstant, now: UtcInstant) -> (r: bool)
    requires
        now@.secs >= 0,
    ensures
        r == fresh(crawled@, now@),
{
    let limit = match minus_months(&now, STALE_AFTER_MONTHS) {
        Some(limit) => limit,
        None => now,
    };
    proof {
        use_type_invariant(&limit);
        assert(is_stale_limit(now@, limit@));
        assert forall|other: Moment| #[trigger] is_stale_limit(now@, other) implies other
            == limit@ by {
            lemma_stale_limit_is_unique(now@, limit@, other);
        }
    }
    limit.up_to(&crawled)
}

proof fn lemma_stale_limit_is_unique(now: Moment, a: Moment, b: Moment)
    requires
        is_stale_limit(now, a),
        is_stale_limit(now, b),
    ensures
        a == b,
{
    months_before_is_unique(
        day_of(now.secs),
        STALE_AFTER_MONTHS as int,
        day_of(a.secs),
        day_of(b.secs),
    );
}

/// The last crawl is recent at `now`. One whose time is missing or cannot be read is not.
pub open spec fn recent(last_crawled_at: Option<Seq<char>>, now: Moment) -> bool {
    match last_crawled_at {
        Some(raw) => match rfc3339_reading(raw) {
            Ok(crawled) => fresh(crawled, now),
            Err(_) => false,
        },
        None => false,
    }
}

/// Whether a character was crawled recently enough at `now` that its runs need no update.
pub fn crawled_recently_at(last_crawled_at: Option<&str>, now: UtcInstant) -> (r: bool)
    requires
        now@.secs >= 0,
    ensures
        r == recent(
            str_text(last_crawled_at),
            now@,
        ),
{
    match last_crawled_at {
        Some(raw) => match parse_rfc3339(raw) {
            Ok(crawled) => is_fresh(crawled, now),
            Err(_) => false,
        },
        None => false,
    }
}

/// Whether a character was crawled recently enough that its runs need no update.
pub fn crawled_recently(last_crawled_at: Option<&str>) -> (r: bool)
    ensures
        exists|now: Moment|
            now.valid() && now.secs >= 0 && is_clock_reading(now) && r == #[trigger] recent(
                str_text(last_crawled_at),
                now,
            ),
        last_crawled_at is None ==> !r,
        last_crawled_at matches Some(raw) ==> rfc3339_reading(raw@) is Err ==> !r,
{
    let now = read_clock();
    crawled_recently_at(last_crawled_at, now)
}

/// A crawl of the last 89 days is recent, and one more than 92 days old is not.
pub proof fn freshness_lasts_about_three_months(crawled: Moment, now: Moment)
    requires
        now.valid(),
        now.secs >= 0,
    ensures
        crawled.secs > now.secs - 89 * 86_400 ==> fresh(crawled, now),
        crawled.secs < now.secs - 92 * 86_400 ==> !fresh(crawled, now),
{
    let day = day_of(now.secs);
    let (y, m, d) = day_has_a_date(day);
    let earlier = months_before(y, m, d, 3);
    assert(is_months_before(day, 3, earlier));
    three_months_span(day, earlier);
    let limit = Moment { secs: 86_400 * earlier + second_of_day(now.secs), nanos: now.nanos };
    assert(is_stale_limit(now, limit));
    assert forall|other: Moment| #[trigger] is_stale_limit(now, other) implies other == limit by {
        lemma_stale_limit_is_unique(now, limit, other);
    }
}

/// A later crawl of a character is recent wherever an earlier one is.
pub proof fn later_crawl_is_fresher(earlier: Moment, later: Moment, now: Moment)
    requires
        earlier.up_to(later),
        fresh(earlier, now),
    ensures
        fresh(later, now),
{
    let limit = choose|limit: Moment| #[trigger]
        is_stale_limit(now, limit) && limit.up_to(earlier);
    assert(limit.up_to(later));
}

// Guild update.

/// Region, realm and name of a character.
#[derive(Debug)]
pub struct CharacterKey {
    pub region: String,
    pub realm: String,
    pub name: String,
}

impl View for CharacterKey {
    type V = (Seq<char>, Seq<char>, Seq<char>);

    open spec fn view(&self) -> (Seq<char>, Seq<char>, Seq<char>) {
        (self.region@, self.realm@, self.name@)
    }
}

/// How a member of a guild came out of its update.
#[derive(Debug, Clone, Copy, PartialEq, Eq, Structural)]
pub enum MemberOutcome {
    /// Crawled recently: kept on the roster, with no update of its runs due.
    SkippedFresh,
    /// Known before.
    Updated,
    /// Not known before.
    Added,
}

/// A character as a member of a guild.
#[derive(Debug)]
pub struct Membership {
    pub character: CharacterKey,
    pub guild_name: String,
    pub guild_realm: String,
}

/// What a guild update asks of the database next.
#[derive(Debug)]
pub enum GuildAction {
    /// Look the character up; `found` takes the answer.
    Find(CharacterKey),
    /// Insert or update the character as a member of the guild, then call `upserted`.
    Upsert(Membership),
    /// All members are done; `finish` gives the result.
    Finish,
}

/// Where a guild update stands.
#[derive(Debug, Clone, Copy, PartialEq, Eq, Structural)]
pub enum GuildPhase {
    /// Between two members.
    Ready,
    /// The current member is being looked up.
    Finding,
    /// The current member is being written, and will have come out like this.
    Upserting(MemberOutcome),
}

/// An update of a guild, member by member.
#[derive(Debug)]
pub struct GuildUpdate {
    pub region: String,
    pub realm: String,
    pub name: String,
    pub members: Vec<RioGuildMember>,
    /// How the members so far came out.
    pub outcomes: Vec<MemberOutcome>,
    pub phase: GuildPhase,
}

#[derive(Debug)]
pub struct GuildUpdateResult {
    pub region: String,
    pub realm: String,
    pub name: String,
    pub members_added: usize,
    pub members_updated: usize,
    /// Members that were crawled recently enough for no update of their runs to be due.
    pub members_skipped_fresh: usize,
    pub members: Vec<CharacterSummary>,
}

/// How often `outcome` occurs.
pub open spec fn tally<A>(outcomes: Seq<A>, outcome: A) -> nat
    decreases outcomes.len(),
{
    if outcomes.len() == 0 {
        0
    } else {
        tally(outcomes.drop_last(), outcome) + if outcomes.last() == outcome {
            1nat
        } else {
            0nat
        }
    }
}

/// The region of a member: its own, or else the guild's.
pub open spec fn member_region(guild_region: Seq<char>, member: RioGuildMember) -> Seq<char> {
    match member.character.region {
        Some(region) => region@,
        None => guild_region,
    }
}

pub open spec fn member_key(guild_region: Seq<char>, member: RioGuildMember) -> (
    Seq<char>,
    Seq<char>,
    Seq<char>,
) {
    (
        member_region(guild_region, member),
        member.character.realm@,
        member.character.name@,
    )
}

pub open spec fn member_summary(
    guild_region: Seq<char>,
    guild_name: Seq<char>,
    member: RioGuildMember,
) -> SummaryText {
    SummaryText {
        region: member_region(guild_region, member),
        realm: member.character.realm@,
        name: member.character.name@,
        guild_name: Some(guild_name),
    }
}

/// A guild and the keys of its members.
pub struct Roster {
    pub region: Seq<char>,
    pub realm: Seq<char>,
    pub name: Seq<char>,
    pub keys: Seq<(Seq<char>, Seq<char>, Seq<char>)>,
}

pub open spec fn roster_of(
    region: Seq<char>,
    realm: Seq<char>,
    name: Seq<char>,
    members: Seq<RioGuildMember>,
) -> Roster {
    Roster {
        region,
        realm,
        name,
        keys: Seq::new(members.len(), |i: int| member_key(region, members[i])),
    }
}

impl Roster {
    /// What tables that hold `before` hold once the first `n` members were written.
    pub open spec fn writes(self, before: Tables, n: nat) -> Tables
        decreases n,
    {
        if n == 0 {
            before
        } else {
            self.writes(before, (n - 1) as nat).upsert_character(
                self.keys[n - 1],
                Some(self.name),
                Some(self.realm),
            )
        }
    }

    /// When its turn comes, member `i` is in tables that held `before`.
    pub open spec fn is_known(self, before: Tables, i: int) -> bool {
        self.writes(before, i as nat).characters.dom().contains(self.keys[i])
    }

    /// `outcome` is one that member `i` can have with tables that held `before`: one that is
    /// looked up is known or not.
    pub open spec fn agrees(self, before: Tables, i: int, outcome: MemberOutcome) -> bool {
        match outcome {
            MemberOutcome::SkippedFresh => true,
            MemberOutcome::Updated => self.is_known(before, i),
            MemberOutcome::Added => !self.is_known(before, i),
        }
    }
}

/// Which members were crawled recently, each at the time given for it.
pub open spec fn recencies(members: Seq<RioGuildMember>, times: Seq<Moment>) -> Seq<bool> {
    Seq::new(
        members.len(),
        |i: int| recent(text_of(members[i].character.last_crawled_at), times[i]),
    )
}

/// The same time for each of `n` members.
pub open spec fn all_at(now: Moment, n: nat) -> Seq<Moment> {
    Seq::new(n, |i: int| now)
}

/// How many members were crawled recently at `now`.
pub open spec fn recent_members(members: Seq<RioGuildMember>, now: Moment) -> nat {
    tally(recencies(members, all_at(now, members.len())), true)
}

impl GuildUpdate {
    /// So far exactly those members were skipped that were crawled recently, each at the
    /// time given for it.
    pub open spec fn skips_the_recent_at(self, times: Seq<Moment>) -> bool {
        let recencies = recencies(self.members@, times);
        let current = self.outcomes@.len() as int;
        &&& forall|i: int|
            0 <= i < self.outcomes@.len() ==> (#[trigger] self.outcomes@[i]
                == MemberOutcome::SkippedFresh <==> recencies[i])
        &&& match self.phase {
            GuildPhase::Ready => true,
            GuildPhase::Finding => !recencies[current],
            GuildPhase::Upserting(outcome) => outcome == MemberOutcome::SkippedFresh
                <==> recencies[current],
        }
    }

    /// So far exactly those members were skipped that were crawled recently at `now`.
    pub open spec fn skips_the_recent(self, now: Moment) -> bool {
        self.skips_the_recent_at(all_at(now, self.members@.len()))
    }

    /// A member is being worked on, unless the update is between two.
    pub open spec fn well_formed(self) -> bool {
        &&& self.outcomes@.len() <= self.members@.len()
        &&& self.phase != GuildPhase::Ready ==> self.outcomes@.len() < self.members@.len()
    }

    pub open spec fn same_guild(self, other: GuildUpdate) -> bool {
        &&& self.region == other.region
        &&& self.realm == other.realm
        &&& self.name == other.name
        &&& self.members == other.members
    }

    /// The key of the member that is being worked on.
    pub open spec fn current_key(self) -> (Seq<char>, Seq<char>, Seq<char>) {
        member_key(self.region@, self.members@[self.outcomes@.len() as int])
    }

    /// `member` puts the member that is being worked on into the guild.
    pub open spec fn is_current_member(self, member: Membership) -> bool {
        &&& member.character@ == self.current_key()
        &&& member.guild_name@ == self.name@
        &&& member.guild_realm@ == self.realm@
    }

    pub open spec fn roster(self) -> Roster {
        roster_of(self.region@, self.realm@, self.name@, self.members@)
    }

    /// The answers so far are those of tables that held `before`, which nothing but this
    /// update has written since.
    pub open spec fn is_answered_by(self, before: Tables) -> bool {
        &&& forall|i: int|
            0 <= i < self.outcomes@.len() ==> #[trigger] self.roster().agrees(
                before,
                i,
                self.outcomes@[i],
            )
        &&& self.phase matches GuildPhase::Upserting(outcome) ==> self.roster().agrees(
            before,
            self.outcomes@.len() as int,
            outcome,
        )
    }

    /// What `self` becomes, and what it asks for, when it takes up the next member, which
    /// is `fresh` or not.
    pub open spec fn takes_up_next(
        self,
        after: GuildUpdate,
        fresh: bool,
        action: GuildAction,
    ) -> bool {
        &&& after.same_guild(self)
        &&& after.outcomes@ == self.outcomes@
        &&& if self.outcomes@.len() == self.members@.len() {
            after.phase == GuildPhase::Ready && action is Finish
        } else if fresh {
            &&& after.phase == GuildPhase::Upserting(MemberOutcome::SkippedFresh)
            &&& action matches GuildAction::Upsert(member) && self.is_current_member(member)
        } else {
            &&& after.phase == GuildPhase::Finding
            &&& action matches GuildAction::Find(key) && key@ == self.current_key()
        }
    }

    fn member_key(&self) -> (r: CharacterKey)
        requires
            self.outcomes@.len() < self.members@.len(),
        ensures
            r@ == self.current_key(),
    {
        let member = &self.members[self.outcomes.len()];
        let region = match &member.character.region {
            Some(region) => region.clone(),
            None => self.region.clone(),
        };
        CharacterKey {
            region,
            realm: member.character.realm.clone(),
            name: member.character.name.clone(),
        }
    }

    fn membership(&self) -> (r: Membership)
        requires
            self.outcomes@.len() < self.members@.len(),
        ensures
            self.is_current_member(r),
    {
        Membership {
            character: self.member_key(),
            guild_name: self.name.clone(),
            guild_realm: self.realm.clone(),
        }
    }

    /// Takes up the next member, given whether it was crawled recently. A member that was
    /// is written without being looked up.
    pub fn advance(&mut self, fresh: bool) -> (r: GuildAction)
        requires
            old(self).well_formed(),
            old(self).phase == GuildPhase::Ready,
        ensures
            final(self).well_formed(),
            old(self).takes_up_next(*final(self), fresh, r),
            forall|times: Seq<Moment>| #[trigger]
                old(self).skips_the_recent_at(times) && (old(self).outcomes@.len()
                    < old(self).members@.len() ==> fresh == recencies(
                    old(self).members@,
                    times,
                )[old(self).outcomes@.len() as int]) ==> final(self).skips_the_recent_at(times),
            forall|before: Tables| #[trigger]
                old(self).is_answered_by(before) ==> final(self).is_answered_by(before),
    {
        if self.outcomes.len() == self.members.len() {
            return GuildAction::Finish;
        }
        if fresh {
            self.phase = GuildPhase::Upserting(MemberOutcome::SkippedFresh);
            assert(self.roster() == old(self).roster());
            GuildAction::Upsert(self.membership())
        } else {
            self.phase = GuildPhase::Finding;
            assert(self.roster() == old(self).roster());
            GuildAction::Find(self.member_key())
        }
    }

    /// What `self` becomes, and what it asks for, when it takes up the next member at `now`.
    pub open spec fn takes_up_next_at(
        self,
        after: GuildUpdate,
        now: Moment,
        action: GuildAction,
    ) -> bool {
        let last_crawled_at =
            self.members@[self.outcomes@.len() as int].character.last_crawled_at;
        self.takes_up_next(after, recent(text_of(last_crawled_at), now), action)
    }

    /// Takes up the next member at `now`.
    pub fn next_member_at(&mut self, now: UtcInstant) -> (r: GuildAction)
        requires
            old(self).well_formed(),
            old(self).phase == GuildPhase::Ready,
            now@.secs >= 0,
        ensures
            final(self).well_formed(),
            old(self).takes_up_next_at(*final(self), now@, r),
            forall|times: Seq<Moment>| #[trigger]
                old(self).skips_the_recent_at(times) && times[old(self).outcomes@.len() as int]
                    == now@ ==> final(self).skips_the_recent_at(times),
            old(self).skips_the_recent(now@) ==> final(self).skips_the_recent(now@),
            forall|before: Tables| #[trigger]
                old(self).is_answered_by(before) ==> final(self).is_answered_by(before),
    {
        let fresh = if self.outcomes.len() < self.members.len() {
            match &self.members[self.outcomes.len()].character.last_crawled_at {
                Some(raw) => crawled_recently_at(Some(raw.as_str()), now),
                None => crawled_recently_at(None, now),
            }
        } else {
            false
        };
        self.advance(fresh)
    }

    /// Takes up the next member.
    pub fn next_member(&mut self) -> (r: GuildAction)
        requires
            old(self).well_formed(),
            old(self).phase == GuildPhase::Ready,
        ensures
            final(self).well_formed(),
            exists|now: Moment|
                {
                    &&& now.valid() && now.secs >= 0 && is_clock_reading(now)
                    &&& #[trigger] old(self).takes_up_next_at(*final(self), now, r)
                    &&& forall|times: Seq<Moment>| #[trigger]
                        old(self).skips_the_recent_at(times)
                            && times[old(self).outcomes@.len() as int] == now
                            ==> final(self).skips_the_recent_at(times)
                },
            forall|before: Tables| #[trigger]
                old(self).is_answered_by(before) ==> final(self).is_answered_by(before),
    {
        let now = read_clock();
        self.next_member_at(now)
    }

    /// Goes on with the id under which the current member was found, if any.
    pub fn found(&mut self, id: Option<i64>) -> (r: GuildAction)
        requires
            old(self).well_formed(),
            old(self).phase == GuildPhase::Finding,
        ensures
            final(self).well_formed(),
            final(self).same_guild(*old(self)),
            final(self).outcomes@ == old(self).outcomes@,
            final(self).phase == GuildPhase::Upserting(
                if id is Some {
                    MemberOutcome::Updated
                } else {
                    MemberOutcome::Added
                },
            ),
            r matches GuildAction::Upsert(member) && old(self).is_current_member(member),
            forall|times: Seq<Moment>| #[trigger]
                old(self).skips_the_recent_at(times) ==> final(self).skips_the_recent_at(times),
            forall|now: Moment| #[trigger]
                old(self).skips_the_recent(now) ==> final(self).skips_the_recent(now),
            forall|before: Tables| #[trigger]
                old(self).is_answered_by(before) && (id is Some <==> old(self).roster().is_known(
                    before,
                    old(self).outcomes@.len() as int,
                )) ==> final(self).is_answered_by(before),
    {
        let outcome = if id.is_some() {
            MemberOutcome::Updated
        } else {
            MemberOutcome::Added
        };
        self.phase = GuildPhase::Upserting(outcome);
        GuildAction::Upsert(self.membership())
    }

    /// Goes on after the current member was written.
    pub fn upserted(&mut self)
        requires
            old(self).well_formed(),
            old(self).phase is Upserting,
        ensures
            final(self).well_formed(),
            final(self).same_guild(*old(self)),
            final(self).phase == GuildPhase::Ready,
            old(self).phase matches GuildPhase::Upserting(outcome) && final(self).outcomes@
                == old(self).outcomes@.push(outcome),
            forall|times: Seq<Moment>| #[trigger]
                old(self).skips_the_recent_at(times) ==> final(self).skips_the_recent_at(times),
            forall|now: Moment| #[trigger]
                old(self).skips_the_recent(now) ==> final(self).skips_the_recent(now),
            forall|before: Tables| #[trigger]
                old(self).is_answered_by(before) ==> final(self).is_answered_by(before),
    {
        if let GuildPhase::Upserting(outcome) = self.phase {
            self.outcomes.push(outcome);
            self.phase = GuildPhase::Ready;
        }
    }

    /// The result of the update: how many members came out how, and a summary of each.
    pub fn finish(self) -> (r: GuildUpdateResult)
        requires
            self.well_formed(),
            self.outcomes@.len() == self.members@.len(),
        ensures
            r.region == self.region,
            r.realm == self.realm,
            r.name == self.name,
            r.members_added == tally(self.outcomes@, MemberOutcome::Added),
            r.members_updated == tally(self.outcomes@, MemberOutcome::Updated),
            r.members_skipped_fresh == tally(self.outcomes@, MemberOutcome::SkippedFresh),
            r.members@.len() == self.members@.len(),
            forall|i: int|
                0 <= i < self.members@.len() ==> #[trigger] r.members@[i]@ == member_summary(
                    self.region@,
                    self.name@,
                    self.members@[i],
                ),
            r.members_added + r.members_updated + r.members_skipped_fresh == r.members@.len(),
            forall|times: Seq<Moment>| #[trigger]
                self.skips_the_recent_at(times) ==> r.members_skipped_fresh == tally(
                    recencies(self.members@, times),
                    true,
                ),
            forall|now: Moment| #[trigger]
                self.skips_the_recent(now) ==> r.members_skipped_fresh == recent_members(
                    self.members@,
                    now,
                ),
    {
        let mut members_added: usize = 0;
        let mut members_updated: usize = 0;
        let mut members_skipped_fresh: usize = 0;
        let mut members: Vec<CharacterSummary> = Vec::new();
        let mut i: usize = 0;
        while i < self.members.len()
            invariant
                i <= self.members@.len(),
                self.outcomes@.len() == self.members@.len(),
                members@.len() == i,
                members_added == tally(self.outcomes@.take(i as int), MemberOutcome::Added),
                members_updated == tally(self.outcomes@.take(i as int), MemberOutcome::Updated),
                members_skipped_fresh == tally(
                    self.outcomes@.take(i as int),
                    MemberOutcome::SkippedFresh,
                ),
                members_added + members_updated + members_skipped_fresh == i,
                forall|j: int|
                    0 <= j < i ==> #[trigger] members@[j]@ == member_summary(
                        self.region@,
                        self.name@,
                        self.members@[j],
                    ),
            decreases self.members@.len() - i,
        {
            assert(self.outcomes@.take(i as int + 1).drop_last() == self.outcomes@.take(i as int));
            match self.outcomes[i] {
                MemberOutcome::SkippedFresh => {
                    members_skipped_fresh = members_skipped_fresh + 1;
                },
                MemberOutcome::Updated => {
                    members_updated = members_updated + 1;
                },
                MemberOutcome::Added => {
                    members_added = members_added + 1;
                },
            }
            let member = &self.members[i];
            let region = match &member.character.region {
                Some(region) => region.clone(),
                None => self.region.clone(),
            };
            members.push(
                CharacterSummary {
                    region,
                    realm: member.character.realm.clone(),
                    name: member.character.name.clone(),
                    guild_name: Some(self.name.clone()),
                },
            );
            i = i + 1;
        }
        assert(self.outcomes@.take(i as int) == self.outcomes@);
        assert forall|times: Seq<Moment>| #[trigger]
            self.skips_the_recent_at(times) implies members_skipped_fresh == tally(
            recencies(self.members@, times),
            true,
        ) by {
            skipped_members_are_the_recent(self, times);
        }
        GuildUpdateResult {
            region: self.region,
            realm: self.realm,
            name: self.name,
            members_added,
            members_updated,
            members_skipped_fresh,
            members,
        }
    }
}

/// Starts the update of a guild whose profile has come in.
pub fn update_guild(region: &str, realm: &str, name: &str, profile: RioGuildProfile) -> (r:
    GuildUpdate)
    ensures
        r.region@ == region@,
        r.realm@ == realm@,
        r.name@ == name@,
        r.members@ == match profile.members {
            Some(members) => members@,
            None => Seq::empty(),
        },
        r.outcomes@ == Seq::<MemberOutcome>::empty(),
        r.phase == GuildPhase::Ready,
        r.well_formed(),
        forall|times: Seq<Moment>| #[trigger] r.skips_the_recent_at(times),
        forall|now: Moment| #[trigger] r.skips_the_recent(now),
        forall|before: Tables| #[trigger] r.is_answered_by(before),
{
    let members = match profile.members {
        Some(members) => members,
        None => Vec::new(),
    };
    GuildUpdate {
        region: String::from(region),
        realm: String::from(realm),
        name: String::from(name),
        members,
        outcomes: Vec::new(),
        phase: GuildPhase::Ready,
    }
}

proof fn lemma_same_tally<A, B>(a: Seq<A>, x: A, b: Seq<B>, y: B)
    requires
        a.len() == b.len(),
        forall|i: int| 0 <= i < a.len() ==> (#[trigger] a[i] == x <==> b[i] == y),
    ensures
        tally(a, x) == tally(b, y),
    decreases a.len(),
{
    if a.len() > 0 {
        assert(a[a.len() - 1] == x <==> b[b.len() - 1] == y);
        assert forall|i: int| 0 <= i < a.drop_last().len() implies (#[trigger] a.drop_last()[i]
            == x <==> b.drop_last()[i] == y) by {
            assert(a[i] == x <==> b[i] == y);
        }
        lemma_same_tally(a.drop_last(), x, b.drop_last(), y);
    }
}

/// A finished update that skipped exactly the members that were crawled recently, each at
/// the time given for it, skipped as many as there are such members.
pub proof fn skipped_members_are_the_recent(update: GuildUpdate, times: Seq<Moment>)
    requires
        update.outcomes@.len() == update.members@.len(),
        update.skips_the_recent_at(times),
    ensures
        tally(update.outcomes@, MemberOutcome::SkippedFresh) == tally(
            recencies(update.members@, times),
            true,
        ),
{
    lemma_same_tally(
        update.outcomes@,
        MemberOutcome::SkippedFresh,
        recencies(update.members@, times),
        true,
    );
}

proof fn lemma_tally_none<A>(outcomes: Seq<A>, outcome: A)
    requires
        forall|i: int| 0 <= i < outcomes.len() ==> #[trigger] outcomes[i] != outcome,
    ensures
        tally(outcomes, outcome) == 0,
    decreases outcomes.len(),
{
    if outcomes.len() > 0 {
        lemma_tally_none(outcomes.drop_last(), outcome);
    }
}

/// An update whose members were all found, as far as they were looked up, adds none.
pub proof fn update_of_known_members_adds_none(update: GuildUpdate)
    requires
        forall|i: int|
            0 <= i < update.outcomes@.len() ==> #[trigger] update.outcomes@[i]
                != MemberOutcome::Added,
    ensures
        tally(update.outcomes@, MemberOutcome::Added) == 0,
{
    lemma_tally_none(update.outcomes@, MemberOutcome::Added);
}

proof fn lemma_written_members_stay(roster: Roster, before: Tables, i: int, n: nat)
    requires
        0 <= i < n,
    ensures
        roster.writes(before, n).characters.dom().contains(roster.keys[i]),
        roster.writes(before, n).characters[roster.keys[i]].name == Some(roster.name),
        roster.writes(before, n).characters[roster.keys[i]].realm == Some(roster.realm),
    decreases n,
{
    if i < n - 1 {
        lemma_written_members_stay(roster, before, i, (n - 1) as nat);
    }
}

proof fn lemma_rewriting_changes_nothing(roster: Roster, before: Tables, n: nat)
    requires
        n <= roster.keys.len(),
    ensures
        roster.writes(roster.writes(before, roster.keys.len()), n) == roster.writes(
            before,
            roster.keys.len(),
        ),
    decreases n,
{
    if n > 0 {
        let after = roster.writes(before, roster.keys.len());
        lemma_rewriting_changes_nothing(roster, before, (n - 1) as nat);
        lemma_written_members_stay(roster, before, n - 1, roster.keys.len());
        assert(after.upsert_character(roster.keys[n - 1], Some(roster.name), Some(roster.realm))
            =~= after);
    }
}

/// An update that follows another one of the same guild and members, with nothing else
/// written to the tables in between, adds no member and leaves the tables as they are. It
/// lists the same members.
pub proof fn second_guild_update_adds_none(first: GuildUpdate, second: GuildUpdate, before: Tables)
    requires
        first.roster() == second.roster(),
        second.outcomes@.len() <= second.members@.len(),
        second.is_answered_by(first.roster().writes(before, first.members@.len())),
    ensures
        tally(second.outcomes@, MemberOutcome::Added) == 0,
        second.roster().writes(
            first.roster().writes(before, first.members@.len()),
            second.members@.len(),
        ) == first.roster().writes(before, first.members@.len()),
        second.members@.len() == first.members@.len(),
        forall|i: int|
            0 <= i < first.members@.len() ==> #[trigger] member_summary(
                second.region@,
                second.name@,
                second.members@[i],
            ) == member_summary(first.region@, first.name@, first.members@[i]),
{
    let roster = first.roster();
    let after = roster.writes(before, roster.keys.len());
    assert(roster.keys.len() == first.members@.len());
    assert(second.roster().keys.len() == second.members@.len());
    assert forall|i: int| 0 <= i < second.outcomes@.len() implies #[trigger] second.outcomes@[i]
        != MemberOutcome::Added by {
        lemma_rewriting_changes_nothing(roster, before, i as nat);
        lemma_written_members_stay(roster, before, i, roster.keys.len());
        assert(second.roster().agrees(after, i, second.outcomes@[i]));
    }
    lemma_tally_none(second.outcomes@, MemberOutcome::Added);
    lemma_rewriting_changes_nothing(roster, before, roster.keys.len());
    assert forall|i: int| 0 <= i < first.members@.len() implies #[trigger] member_summary(
        second.region@,
        second.name@,
        second.members@[i],
    ) == member_summary(first.region@, first.name@, first.members@[i]) by {
        assert(first.roster().keys[i] == member_key(first.region@, first.members@[i]));
        assert(second.roster().keys[i] == member_key(second.region@, second.members@[i]));
    }
}

// Character update.

/// What becomes of a run that Raider.IO reports.
#[derive(Debug)]
pub enum RunPlan {
    /// The run was not timed, so it is not kept.
    Depleted,
    /// The time of the run cannot be read, with the message why; the run is passed over.
    Unreadable(String),
    /// The run is to be inserted.
    Insert(Run),
}

/// How a run came out of its character's update.
#[derive(Debug, Clone, Copy, PartialEq, Eq, Structural)]
pub enum RunOutcome {
    Depleted,
    Unreadable,
    Inserted,
    /// The database had the run already.
    Duplicate,
}

/// The identifier that Raider.IO gives a run, where it is a number or a string.
pub open spec fn source_run_id(id: Option<RioRunId>) -> Option<Seq<char>> {
    match id {
        Some(RioRunId::Number(text)) => Some(text@),
        Some(RioRunId::Text(text)) => Some(text@),
        _ => None,
    }
}

/// The identifier that Raider.IO gives a run, where it is a number or a string.
pub fn source_id(id: &Option<RioRunId>) -> (r: Option<String>)
    ensures
        text_of(r) == source_run_id(*id),
{
    match id {
        Some(RioRunId::Number(text)) => Some(text.clone()),
        Some(RioRunId::Text(text)) => Some(text.clone()),
        _ => None,
    }
}

/// The run was not finished in time.
pub open spec fn depleted(rio_run: RioRun) -> bool {
    rio_run.num_keystone_upgrades == 0
}

/// The hash of a run of the character with this key.
pub open spec fn rio_run_hash(
    key: (Seq<char>, Seq<char>, Seq<char>),
    rio_run: RioRun,
) -> Seq<char> {
    run_hash_text(
        run_identity(
            key.0,
            key.1,
            key.2,
            rio_run.short_name@,
            rio_run.mythic_level as int,
            rio_run.completed_at@,
            source_run_id(rio_run.id),
        ),
    )
}

/// `run` is what is kept of a timed run that was completed at `completed_at` and has the
/// given hash.
pub open spec fn records(
    run: Run,
    character_id: i64,
    rio_run: RioRun,
    completed_at: Moment,
    hash: Seq<char>,
) -> bool {
    &&& run.character_id == character_id
    &&& run.dungeon_short@ == rio_run.short_name@
    &&& run.key_level == rio_run.mythic_level
    &&& run.completed_at@ == completed_at
    &&& run.within_time
    &&& run.season is None
    &&& text_of(run.url) == text_of(rio_run.url)
    &&& text_of(run.source_run_id) == source_run_id(rio_run.id)
    &&& run.hash@ == hash
}

/// `plan` is what becomes of a run whose time reads as `completed_at` and whose hash is
/// `hash`.
pub open spec fn is_plan(
    plan: RunPlan,
    character_id: i64,
    rio_run: RioRun,
    completed_at: Result<Moment, Seq<char>>,
    hash: Seq<char>,
) -> bool {
    match plan {
        RunPlan::Depleted => depleted(rio_run),
        RunPlan::Unreadable(message) => !depleted(rio_run) && completed_at == Err::<
            Moment,
            Seq<char>,
        >(message@),
        RunPlan::Insert(run) => !depleted(rio_run) && (completed_at matches Ok(at) && records(
            run,
            character_id,
            rio_run,
            at,
            hash,
        )),
    }
}

/// What becomes of a run, given how its time reads and what its hash is.
pub fn plan_run(
    character_id: i64,
    rio_run: &RioRun,
    completed_at: Result<UtcInstant, String>,
    hash: String,
) -> (r: RunPlan)
    ensures
        is_plan(
            r,
            character_id,
            *rio_run,
            match completed_at {
                Ok(at) => Ok(at@),
                Err(message) => Err(message@),
            },
            hash@,
        ),
{
    if rio_run.num_keystone_upgrades == 0 {
        return RunPlan::Depleted;
    }
    match completed_at {
        Ok(completed_at) => {
            let url = match &rio_run.url {
                Some(url) => Some(url.clone()),
                None => None,
            };
            RunPlan::Insert(
                Run {
                    character_id,
                    dungeon_short: rio_run.short_name.clone(),
                    key_level: rio_run.mythic_level,
                    completed_at,
                    within_time: true,
                    season: None,
                    url,
                    source_run_id: source_id(&rio_run.id),
                    hash,
                },
            )
        },
        Err(message) => RunPlan::Unreadable(message),
    }
}

/// What a character update asks of the database next.
#[derive(Debug)]
pub enum CharacterAction {
    /// Insert the run, unless its hash is there already, and call `inserted`.
    Insert(Run),
    /// All runs are done; `finish` gives the result.
    Finish,
}

/// An update of a character, run by run.
#[derive(Debug)]
pub struct CharacterUpdate {
    pub region: String,
    pub realm: String,
    pub name: String,
    pub character_id: i64,
    pub runs: Vec<RioRun>,
    /// How the runs so far came out.
    pub outcomes: Vec<RunOutcome>,
    /// The current run is being inserted.
    pub inserting: bool,
}

#[derive(Debug)]
pub struct CharacterUpdateResult {
    pub character: CharacterSummary,
    pub runs_inserted: usize,
    pub runs_ignored: usize,
}

/// A run that is kept: one that was timed and whose time can be read.
pub open spec fn is_kept(rio_run: RioRun) -> bool {
    !depleted(rio_run) && rfc3339_reading(rio_run.completed_at@) is Ok
}

/// What is kept of the runs of a character: the hash of each that is, in order.
pub open spec fn kept_hashes(
    key: (Seq<char>, Seq<char>, Seq<char>),
    runs: Seq<RioRun>,
) -> Seq<Option<Seq<char>>> {
    Seq::new(
        runs.len(),
        |i: int|
            if is_kept(runs[i]) {
                Some(rio_run_hash(key, runs[i]))
            } else {
                None
            },
    )
}

/// What tables that hold `before` hold once the first `n` runs were inserted, as far as
/// they are kept.
pub open spec fn tables_with_runs(hashes: Seq<Option<Seq<char>>>, before: Tables, n: nat) -> Tables
    decreases n,
{
    if n == 0 {
        before
    } else {
        match hashes[n - 1] {
            Some(hash) => tables_with_runs(hashes, before, (n - 1) as nat).insert_run(hash),
            None => tables_with_runs(hashes, before, (n - 1) as nat),
        }
    }
}

/// When its turn comes, run `i` is in tables that held `before`.
pub open spec fn is_stored(hashes: Seq<Option<Seq<char>>>, before: Tables, i: int) -> bool {
    hashes[i] matches Some(hash) && tables_with_runs(hashes, before, i as nat).runs.contains(hash)
}

/// `outcome` is one that run `i` can have with tables that held `before`: one that is kept
/// is inserted where it is not there.
pub open spec fn run_agrees(
    hashes: Seq<Option<Seq<char>>>,
    before: Tables,
    i: int,
    outcome: RunOutcome,
) -> bool {
    hashes[i] is Some ==> outcome == if is_stored(hashes, before, i) {
        RunOutcome::Duplicate
    } else {
        RunOutcome::Inserted
    }
}

impl CharacterUpdate {
    /// The hashes of the runs that are kept.
    pub open spec fn hashes(self) -> Seq<Option<Seq<char>>> {
        kept_hashes(self.key(), self.runs@)
    }

    /// The answers so far are those of tables that held `before`, which nothing but this
    /// update has written since.
    pub open spec fn is_answered_by(self, before: Tables) -> bool {
        forall|i: int|
            0 <= i < self.outcomes@.len() ==> #[trigger] run_agrees(
                self.hashes(),
                before,
                i,
                self.outcomes@[i],
            )
    }

    pub open spec fn key(self) -> (Seq<char>, Seq<char>, Seq<char>) {
        (self.region@, self.realm@, self.name@)
    }

    pub open spec fn same_character(self, other: CharacterUpdate) -> bool {
        &&& self.region == other.region
        &&& self.realm == other.realm
        &&& self.name == other.name
        &&& self.character_id == other.character_id
        &&& self.runs == other.runs
    }

    /// Run `i` came out as a run can: a depleted one or one with an unreadable time as
    /// such, any other inserted or found to be there.
    pub open spec fn outcome_fits(self, i: int) -> bool {
        let run = self.runs@[i];
        let outcome = self.outcomes@[i];
        if depleted(run) {
            outcome == RunOutcome::Depleted
        } else if rfc3339_reading(run.completed_at@) is Err {
            outcome == RunOutcome::Unreadable
        } else {
            outcome == RunOutcome::Inserted || outcome == RunOutcome::Duplicate
        }
    }

    /// A run is being worked on, where one is being inserted.
    pub open spec fn well_formed(self) -> bool {
        &&& self.outcomes@.len() <= self.runs@.len()
        &&& self.inserting ==> self.outcomes@.len() < self.runs@.len()
    }

    /// The run that is being worked on.
    pub open spec fn current_run(self) -> RioRun {
        self.runs@[self.outcomes@.len() as int]
    }

    /// All runs so far came out as they can, and only a timed run with a readable time is
    /// being inserted.
    pub open spec fn is_faithful(self) -> bool {
        &&& forall|i: int| 0 <= i < self.outcomes@.len() ==> #[trigger] self.outcome_fits(i)
        &&& self.inserting ==> {
            &&& !depleted(self.current_run())
            &&& rfc3339_reading(self.current_run().completed_at@) is Ok
        }
    }

    /// `plan` is what becomes of the current run.
    pub open spec fn plans(self, plan: RunPlan) -> bool {
        is_plan(
            plan,
            self.character_id,
            self.current_run(),
            rfc3339_reading(self.current_run().completed_at@),
            rio_run_hash(self.key(), self.current_run()),
        )
    }

    /// What becomes of the current run.
    fn plan(&self) -> (r: RunPlan)
        requires
            self.outcomes@.len() < self.runs@.len(),
        ensures
            self.plans(r),
    {
        let rio_run = &self.runs[self.outcomes.len()];
        let id = source_id(&rio_run.id);
        let id_text = match &id {
            Some(id) => Some(id.as_str()),
            None => None,
        };
        let hash = run_hash(
            self.region.as_str(),
            self.realm.as_str(),
            self.name.as_str(),
            rio_run.short_name.as_str(),
            rio_run.mythic_level,
            rio_run.completed_at.as_str(),
            id_text,
        );
        let completed_at = parse_rfc3339(rio_run.completed_at.as_str());
        plan_run(self.character_id, rio_run, completed_at, hash)
    }

    /// Takes up the next run that is worth inserting, passing over the depleted ones and
    /// those with an unreadable time.
    pub fn next_run(&mut self) -> (r: CharacterAction)
        requires
            old(self).well_formed(),
            !old(self).inserting,
        ensures
            final(self).well_formed(),
            old(self).is_faithful() ==> final(self).is_faithful(),
            final(self).same_character(*old(self)),
            old(self).outcomes@.is_prefix_of(final(self).outcomes@),
            forall|i: int|
                old(self).outcomes@.len() <= i < final(self).outcomes@.len()
                    ==> #[trigger] final(self).outcome_fits(i),
            forall|i: int|
                old(self).outcomes@.len() <= i < final(self).outcomes@.len() ==> {
                    ||| #[trigger] final(self).outcomes@[i] == RunOutcome::Depleted
                    ||| final(self).outcomes@[i] == RunOutcome::Unreadable
                },
            match r {
                CharacterAction::Insert(run) => {
                    &&& final(self).inserting
                    &&& final(self).plans(RunPlan::Insert(run))
                },
                CharacterAction::Finish => {
                    &&& !final(self).inserting
                    &&& final(self).outcomes@.len() == final(self).runs@.len()
                },
            },
            forall|before: Tables| #[trigger]
                old(self).is_answered_by(before) ==> final(self).is_answered_by(before),
    {
        while self.outcomes.len() < self.runs.len()
            invariant
                self.well_formed(),
                !self.inserting,
                old(self).is_faithful() ==> self.is_faithful(),
                self.same_character(*old(self)),
                old(self).outcomes@.is_prefix_of(self.outcomes@),
                forall|i: int|
                    old(self).outcomes@.len() <= i < self.outcomes@.len()
                        ==> #[trigger] self.outcome_fits(i),
                forall|i: int|
                    old(self).outcomes@.len() <= i < self.outcomes@.len() ==> {
                        ||| #[trigger] self.outcomes@[i] == RunOutcome::Depleted
                        ||| self.outcomes@[i] == RunOutcome::Unreadable
                    },
                forall|before: Tables| #[trigger]
                    old(self).is_answered_by(before) ==> self.is_answered_by(before),
            decreases self.runs@.len() - self.outcomes@.len(),
        {
            let ghost before = *self;
            let skipped = match self.plan() {
                RunPlan::Insert(run) => {
                    self.inserting = true;
                    assert(self.hashes() == before.hashes());
                    assert forall|i: int|
                        0 <= i < self.outcomes@.len() implies #[trigger] self.outcome_fits(i)
                        == before.outcome_fits(i) by {}
                    return CharacterAction::Insert(run);
                },
                RunPlan::Depleted => RunOutcome::Depleted,
                RunPlan::Unreadable(_) => RunOutcome::Unreadable,
            };
            self.outcomes.push(skipped);
            assert(self.hashes() == before.hashes());
            assert(self.hashes()[before.outcomes@.len() as int] is None);
            assert forall|i: int|
                0 <= i < before.outcomes@.len() implies #[trigger] self.outcome_fits(i)
                == before.outcome_fits(i) by {}
        }
        CharacterAction::Finish
    }

    /// Goes on after the current run was inserted, or was found to be there.
    pub fn inserted(&mut self, inserted: bool)
        requires
            old(self).well_formed(),
            old(self).inserting,
        ensures
            final(self).well_formed(),
            old(self).is_faithful() ==> final(self).is_faithful(),
            final(self).same_character(*old(self)),
            !final(self).inserting,
            final(self).outcomes@ == old(self).outcomes@.push(
                if inserted {
                    RunOutcome::Inserted
                } else {
                    RunOutcome::Duplicate
                },
            ),
            forall|before: Tables| #[trigger]
                old(self).is_answered_by(before) && (inserted <==> !is_stored(
                    old(self).hashes(),
                    before,
                    old(self).outcomes@.len() as int,
                )) ==> final(self).is_answered_by(before),
    {
        let outcome = if inserted {
            RunOutcome::Inserted
        } else {
            RunOutcome::Duplicate
        };
        self.outcomes.push(outcome);
        self.inserting = false;
        assert forall|i: int|
            0 <= i < old(self).outcomes@.len() implies #[trigger] self.outcome_fits(i) ==
            old(self).outcome_fits(i) by {}
    }

    /// The result of the update: how many runs were inserted, and how many were depleted
    /// or there already. Runs with an unreadable time count as neither.
    pub fn finish(self) -> (r: CharacterUpdateResult)
        requires
            self.well_formed(),
            self.outcomes@.len() == self.runs@.len(),
        ensures
            r.character@ == (SummaryText {
                region: self.region@,
                realm: self.realm@,
                name: self.name@,
                guild_name: None,
            }),
            r.runs_inserted == tally(self.outcomes@, RunOutcome::Inserted),
            r.runs_ignored == tally(self.outcomes@, RunOutcome::Depleted) + tally(
                self.outcomes@,
                RunOutcome::Duplicate,
            ),
            r.runs_inserted + r.runs_ignored + tally(self.outcomes@, RunOutcome::Unreadable)
                == self.runs@.len(),
    {
        let mut runs_inserted: usize = 0;
        let mut runs_ignored: usize = 0;
        let mut i: usize = 0;
        while i < self.outcomes.len()
            invariant
                i <= self.outcomes@.len(),
                runs_inserted == tally(self.outcomes@.take(i as int), RunOutcome::Inserted),
                runs_ignored == tally(self.outcomes@.take(i as int), RunOutcome::Depleted) + tally(
                    self.outcomes@.take(i as int),
                    RunOutcome::Duplicate,
                ),
                runs_inserted + runs_ignored + tally(
                    self.outcomes@.take(i as int),
                    RunOutcome::Unreadable,
                ) == i,
            decreases self.outcomes@.len() - i,
        {
            assert(self.outcomes@.take(i as int + 1).drop_last() == self.outcomes@.take(i as int));
            match self.outcomes[i] {
                RunOutcome::Inserted => {
                    runs_inserted = runs_inserted + 1;
                },
                RunOutcome::Depleted => {
                    runs_ignored = runs_ignored + 1;
                },
                RunOutcome::Duplicate => {
                    runs_ignored = runs_ignored + 1;
                },
                RunOutcome::Unreadable => {},
            }
            i = i + 1;
        }
        assert(self.outcomes@.take(i as int) == self.outcomes@);
        CharacterUpdateResult {
            character: CharacterSummary {
                region: self.region,
                realm: self.realm,
                name: self.name,
                guild_name: None,
            },
            runs_inserted,
            runs_ignored,
        }
    }
}

/// Starts the update of a character whose profile has come in and which has the given
/// id in the database.
pub fn update_character(
    region: &str,
    realm: &str,
    name: &str,
    character_id: i64,
    profile: RioCharacterProfile,
) -> (r: CharacterUpdate)
    ensures
        r.region@ == region@,
        r.realm@ == realm@,
        r.name@ == name@,
        r.character_id == character_id,
        r.runs@ == match profile.mythic_plus_recent_runs {
            Some(runs) => runs@,
            None => Seq::empty(),
        },
        r.outcomes@ == Seq::<RunOutcome>::empty(),
        !r.inserting,
        r.well_formed(),
        r.is_faithful(),
        forall|before: Tables| #[trigger] r.is_answered_by(before),
{
    let runs = match profile.mythic_plus_recent_runs {
        Some(runs) => runs,
        None => Vec::new(),
    };
    CharacterUpdate {
        region: String::from(region),
        realm: String::from(realm),
        name: String::from(name),
        character_id,
        runs,
        outcomes: Vec::new(),
        inserting: false,
    }
}

/// Only timed runs are kept: a run that an update has inserted was not depleted, and its
/// time could be read.
pub proof fn inserted_runs_were_timed(update: CharacterUpdate, i: int)
    requires
        update.is_faithful(),
        0 <= i < update.outcomes@.len(),
        update.outcomes@[i] == RunOutcome::Inserted,
    ensures
        !depleted(update.runs@[i]),
        rfc3339_reading(update.runs@[i].completed_at@) is Ok,
{
    assert(update.outcome_fits(i));
}

/// A run that is fetched again has the hash that it had, whatever else Raider.IO says of
/// it by then.
pub proof fn refetched_run_keeps_its_hash(
    key: (Seq<char>, Seq<char>, Seq<char>),
    first: RioRun,
    again: RioRun,
)
    requires
        first.short_name@ == again.short_name@,
        first.mythic_level == again.mythic_level,
        first.completed_at@ == again.completed_at@,
        source_run_id(first.id) == source_run_id(again.id),
    ensures
        rio_run_hash(key, first) == rio_run_hash(key, again),
{
}

/// Two reports of the same runs, in the same order.
pub open spec fn same_runs(a: Seq<RioRun>, b: Seq<RioRun>) -> bool {
    &&& a.len() == b.len()
    &&& forall|i: int|
        0 <= i < a.len() ==> {
            &&& (#[trigger] a[i]).short_name@ == b[i].short_name@
            &&& a[i].mythic_level == b[i].mythic_level
            &&& a[i].completed_at@ == b[i].completed_at@
            &&& a[i].num_keystone_upgrades == b[i].num_keystone_upgrades
            &&& source_run_id(a[i].id) == source_run_id(b[i].id)
        }
}

proof fn lemma_tallies_add_up(outcomes: Seq<RunOutcome>)
    ensures
        tally(outcomes, RunOutcome::Inserted) + tally(outcomes, RunOutcome::Duplicate) + tally(
            outcomes,
            RunOutcome::Depleted,
        ) + tally(outcomes, RunOutcome::Unreadable) == outcomes.len(),
    decreases outcomes.len(),
{
    if outcomes.len() > 0 {
        lemma_tallies_add_up(outcomes.drop_last());
    }
}

/// Of two finished updates with the same runs, one that inserts none ignores what the other
/// inserted and ignored together.
pub proof fn update_without_inserts_ignores_the_rest(
    first: CharacterUpdate,
    second: CharacterUpdate,
)
    requires
        same_runs(first.runs@, second.runs@),
        first.is_faithful(),
        second.is_faithful(),
        first.outcomes@.len() == first.runs@.len(),
        second.outcomes@.len() == second.runs@.len(),
        forall|i: int|
            0 <= i < second.outcomes@.len() ==> #[trigger] second.outcomes@[i]
                != RunOutcome::Inserted,
    ensures
        tally(second.outcomes@, RunOutcome::Inserted) == 0,
        tally(second.outcomes@, RunOutcome::Depleted) + tally(
            second.outcomes@,
            RunOutcome::Duplicate,
        ) == tally(first.outcomes@, RunOutcome::Inserted) + tally(
            first.outcomes@,
            RunOutcome::Depleted,
        ) + tally(first.outcomes@, RunOutcome::Duplicate),
{
    lemma_tally_none(second.outcomes@, RunOutcome::Inserted);
    lemma_tallies_add_up(first.outcomes@);
    lemma_tallies_add_up(second.outcomes@);
    assert forall|i: int| 0 <= i < first.outcomes@.len() implies (#[trigger] first.outcomes@[i]
        == RunOutcome::Unreadable <==> second.outcomes@[i] == RunOutcome::Unreadable) by {
        assert(first.outcome_fits(i));
        assert(second.outcome_fits(i));
        assert(first.runs@[i].completed_at@ == second.runs@[i].completed_at@);
    }
    lemma_same_tally(
        first.outcomes@,
        RunOutcome::Unreadable,
        second.outcomes@,
        RunOutcome::Unreadable,
    );
}

proof fn lemma_inserted_runs_stay(
    hashes: Seq<Option<Seq<char>>>,
    before: Tables,
    i: int,
    n: nat,
)
    requires
        0 <= i < n,
        hashes[i] is Some,
    ensures
        tables_with_runs(hashes, before, n).runs.contains(hashes[i]->0),
    decreases n,
{
    if i < n - 1 {
        lemma_inserted_runs_stay(hashes, before, i, (n - 1) as nat);
    }
}

proof fn lemma_reinserting_changes_nothing(
    hashes: Seq<Option<Seq<char>>>,
    before: Tables,
    n: nat,
)
    requires
        n <= hashes.len(),
    ensures
        tables_with_runs(hashes, tables_with_runs(hashes, before, hashes.len()), n)
            == tables_with_runs(hashes, before, hashes.len()),
    decreases n,
{
    if n > 0 {
        let after = tables_with_runs(hashes, before, hashes.len());
        lemma_reinserting_changes_nothing(hashes, before, (n - 1) as nat);
        if hashes[n - 1] is Some {
            lemma_inserted_runs_stay(hashes, before, n - 1, hashes.len());
            assert(after.insert_run(hashes[n - 1]->0) =~= after);
        }
    }
}

/// An update that follows another one of the same character with the same runs, with
/// nothing else written to the tables in between, inserts none, ignores what the other
/// inserted and ignored together, and leaves the tables as they are.
pub proof fn second_character_update_inserts_none(
    first: CharacterUpdate,
    second: CharacterUpdate,
    before: Tables,
)
    requires
        first.key() == second.key(),
        same_runs(first.runs@, second.runs@),
        first.is_faithful(),
        second.is_faithful(),
        first.outcomes@.len() == first.runs@.len(),
        second.outcomes@.len() == second.runs@.len(),
        second.is_answered_by(tables_with_runs(first.hashes(), before, first.runs@.len())),
    ensures
        tally(second.outcomes@, RunOutcome::Inserted) == 0,
        tally(second.outcomes@, RunOutcome::Depleted) + tally(
            second.outcomes@,
            RunOutcome::Duplicate,
        ) == tally(first.outcomes@, RunOutcome::Inserted) + tally(
            first.outcomes@,
            RunOutcome::Depleted,
        ) + tally(first.outcomes@, RunOutcome::Duplicate),
        tables_with_runs(
            second.hashes(),
            tables_with_runs(first.hashes(), before, first.runs@.len()),
            second.runs@.len(),
        ) == tables_with_runs(first.hashes(), before, first.runs@.len()),
{
    let hashes = first.hashes();
    let after = tables_with_runs(hashes, before, hashes.len());
    assert forall|i: int|
        0 <= i < hashes.len() implies hashes[i] == #[trigger] second.hashes()[i] by {
        assert(first.runs@[i].completed_at@ == second.runs@[i].completed_at@);
    }
    assert(hashes == second.hashes());
    assert forall|i: int| 0 <= i < second.outcomes@.len() implies #[trigger] second.outcomes@[i]
        != RunOutcome::Inserted by {
        assert(second.outcome_fits(i));
        assert(run_agrees(second.hashes(), after, i, second.outcomes@[i]));
        if hashes[i] is Some {
            lemma_reinserting_changes_nothing(hashes, before, i as nat);
            lemma_inserted_runs_stay(hashes, before, i, hashes.len());
        }
    }
    update_without_inserts_ignores_the_rest(first, second);
    lemma_reinserting_changes_nothing(hashes, before, hashes.len());
}

// Update of all characters.

/// How the update of one character ended.
#[derive(Debug)]
pub enum UpdateOutcome {
    Updated,
    /// The update failed with this message.
    Failed(CharacterKey, String),
    /// The task of the update died with this message.
    Died(String),
}

#[derive(Debug)]
pub struct UpdateAllResult {
    pub total_characters: usize,
    pub updated_ok: usize,
    pub failed: usize,
    pub pruned: usize,
    pub errors: Vec<String>,
}

/// The update found that the character does not exist at Raider.IO.
pub open spec fn is_gone(outcome: UpdateOutcome) -> bool {
    outcome matches UpdateOutcome::Failed(_, message) && is_missing_character(message@)
}

/// What is reported of an update that failed.
pub open spec fn error_text(outcome: UpdateOutcome) -> Seq<char> {
    match outcome {
        UpdateOutcome::Failed(key, message) => key.name@ + ": "@ + message@,
        UpdateOutcome::Died(message) => "Task panic: "@ + message@,
        UpdateOutcome::Updated => Seq::empty(),
    }
}

/// What an update counts as.
pub enum UpdateKind {
    Updated,
    Pruned,
    Failed,
}

pub open spec fn kind_of(outcome: UpdateOutcome) -> UpdateKind {
    if outcome is Updated {
        UpdateKind::Updated
    } else if is_gone(outcome) {
        UpdateKind::Pruned
    } else {
        UpdateKind::Failed
    }
}

pub open spec fn kinds_of(outcomes: Seq<UpdateOutcome>) -> Seq<UpdateKind> {
    Seq::new(outcomes.len(), |i: int| kind_of(outcomes[i]))
}

/// What is reported of the updates that failed, in order.
pub open spec fn error_texts(outcomes: Seq<UpdateOutcome>) -> Seq<Seq<char>>
    decreases outcomes.len(),
{
    if outcomes.len() == 0 {
        Seq::empty()
    } else if kind_of(outcomes.last()) is Failed {
        error_texts(outcomes.drop_last()).push(error_text(outcomes.last()))
    } else {
        error_texts(outcomes.drop_last())
    }
}

impl UpdateAllResult {
    /// The account is that of updates that ended like this, one after the other.
    pub open spec fn accounts_for(self, outcomes: Seq<UpdateOutcome>) -> bool {
        &&& self.updated_ok == tally(kinds_of(outcomes), UpdateKind::Updated)
        &&& self.pruned == tally(kinds_of(outcomes), UpdateKind::Pruned)
        &&& self.failed == tally(kinds_of(outcomes), UpdateKind::Failed)
        &&& Seq::new(self.errors@.len(), |i: int| self.errors@[i]@) =~= error_texts(outcomes)
    }

    /// How many characters are accounted for.
    pub open spec fn recorded(self) -> int {
        self.updated_ok + self.failed + self.pruned
    }

    /// No more characters are accounted for than there are, and each failure has its error.
    pub open spec fn well_formed(self) -> bool {
        &&& self.recorded() <= self.total_characters
        &&& self.errors@.len() == self.failed
    }

    /// Takes down how the update of one character ended. A character that Raider.IO does
    /// not know is to be deleted: its key is returned.
    pub fn record(&mut self, outcome: UpdateOutcome) -> (r: Option<CharacterKey>)
        requires
            old(self).well_formed(),
            old(self).recorded() < old(self).total_characters,
        ensures
            final(self).well_formed(),
            final(self).recorded() == old(self).recorded() + 1,
            final(self).total_characters == old(self).total_characters,
            final(self).updated_ok == old(self).updated_ok + if outcome is Updated {
                1int
            } else {
                0int
            },
            final(self).pruned == old(self).pruned + if is_gone(outcome) {
                1int
            } else {
                0int
            },
            if outcome is Updated || is_gone(outcome) {
                final(self).errors@ == old(self).errors@
            } else {
                &&& final(self).errors@.drop_last() == old(self).errors@
                &&& final(self).errors@.last()@ == error_text(outcome)
            },
            match r {
                Some(key) => is_gone(outcome) && (outcome matches UpdateOutcome::Failed(k, _) && key
                    == k),
                None => !is_gone(outcome),
            },
            forall|outcomes: Seq<UpdateOutcome>| #[trigger]
                old(self).accounts_for(outcomes) ==> final(self).accounts_for(
                    outcomes.push(outcome),
                ),
    {
        proof {
            assert forall|outcomes: Seq<UpdateOutcome>| #[trigger]
                kinds_of(outcomes.push(outcome)) == kinds_of(outcomes).push(kind_of(outcome)) by {}
            assert forall|outcomes: Seq<UpdateOutcome>| #[trigger]
                outcomes.push(outcome).drop_last() == outcomes by {}
            assert forall|kinds: Seq<UpdateKind>, kind: UpdateKind| #[trigger]
                kinds.push(kind).drop_last() == kinds by {}
        }
        match outcome {
            UpdateOutcome::Updated => {
                self.updated_ok = self.updated_ok + 1;
                None
            },
            UpdateOutcome::Failed(key, message) => {
                if contains(message.as_str(), "400 Bad Request") && contains(
                    message.as_str(),
                    "Could not find requested character",
                ) {
                    self.pruned = self.pruned + 1;
                    return Some(key);
                }
                self.failed = self.failed + 1;
                let mut error = join(key.name.as_str(), ": ");
                error.append(message.as_str());
                self.errors.push(error);
                assert(self.errors@.drop_last() == old(self).errors@);
                None
            },
            UpdateOutcome::Died(message) => {
                self.failed = self.failed + 1;
                self.errors.push(join("Task panic: ", message.as_str()));
                assert(self.errors@.drop_last() == old(self).errors@);
                None
            },
        }
    }
}

/// Starts the account of an update of this many characters.
pub fn update_all_characters(total_characters: usize) -> (r: UpdateAllResult)
    ensures
        r.total_characters == total_characters,
        r.updated_ok == 0,
        r.failed == 0,
        r.pruned == 0,
        r.errors@ == Seq::<String>::empty(),
        r.well_formed(),
        r.accounts_for(Seq::empty()),
{
    UpdateAllResult { total_characters, updated_ok: 0, failed: 0, pruned: 0, errors: Vec::new() }
}

// What the updates are for.

/// Counting an outcome counts the places at which it stands.
pub proof fn tally_counts_the_places<A>(outcomes: Seq<A>, outcome: A)
    ensures
        tally(outcomes, outcome) == outcomes.filter(|o: A| o == outcome).len(),
    decreases outcomes.len(),
{
    reveal(Seq::filter);
    if outcomes.len() > 0 {
        tally_counts_the_places(outcomes.drop_last(), outcome);
    }
}

/// With today being day `d` of month `m` of year `y`, a crawl is fresh exactly from the same
/// time of day on, three months back, on the same day of the month or on that month's last
/// day where it is shorter.
pub proof fn freshness_goes_back_three_months(crawled: Moment, now: Moment, y: int, m: int, d: int)
    requires
        now.valid(),
        now.secs >= 0,
        valid_date(y, m, d),
        day_number(y, m, d) == now.secs / 86_400,
    ensures
        ({
            let (y3, m3) = if m > 3 {
                (y, m - 3)
            } else {
                (y - 1, m + 9)
            };
            let d3 = if d <= days_in_month(y3, m3) {
                d
            } else {
                days_in_month(y3, m3)
            };
            let limit = 86_400 * day_number(y3, m3, d3) + now.secs % 86_400;
            fresh(crawled, now) <==> crawled.secs > limit || (crawled.secs == limit && crawled.nanos
                >= now.nanos)
        }),
{
    let (y3, m3) = if m > 3 {
        (y, m - 3)
    } else {
        (y - 1, m + 9)
    };
    let t = 12 * y + (m - 1) - 3;
    assert(t / 12 == y3 && t % 12 + 1 == m3);
    let earlier = months_before(y, m, d, 3);
    let day = day_of(now.secs);
    assert(is_months_before(day, 3, earlier));
    three_months_span(day, earlier);
    let limit = Moment { secs: 86_400 * earlier + now.secs % 86_400, nanos: now.nanos };
    assert(is_stale_limit(now, limit));
    assert forall|other: Moment| #[trigger] is_stale_limit(now, other) implies other == limit by {
        lemma_stale_limit_is_unique(now, limit, other);
    }
}

/// Whether a member is skipped rests on the time of its last crawl alone: one that is missing
/// or cannot be read is not recent, and one that can be read is recent where it is fresh.
pub proof fn only_readable_crawls_are_recent(last_crawled_at: Option<Seq<char>>, now: Moment)
    ensures
        last_crawled_at is None ==> !recent(last_crawled_at, now),
        last_crawled_at matches Some(raw) ==> rfc3339_reading(raw) is Err ==> !recent(
            last_crawled_at,
            now,
        ),
        last_crawled_at matches Some(raw) ==> (rfc3339_reading(raw) matches Ok(crawled) ==> recent(
            last_crawled_at,
            now,
        ) == fresh(crawled, now)),
{
}

/// What the next member of a guild update is asked for at `now`: one that was crawled
/// recently is written at once, any other is looked up first. It goes by its own region, or
/// by the guild's where it has none, and is written as a member of the guild.
pub proof fn next_member_is_looked_up_unless_recent(
    before: GuildUpdate,
    after: GuildUpdate,
    now: Moment,
    action: GuildAction,
)
    requires
        before.takes_up_next_at(after, now, action),
        before.outcomes@.len() <= before.members@.len(),
    ensures
        before.outcomes@.len() == before.members@.len() <==> action is Finish,
        before.outcomes@.len() < before.members@.len() ==> {
            let member = before.members@[before.outcomes@.len() as int].character;
            &&& action is Upsert <==> (member.last_crawled_at matches Some(raw) && (
            rfc3339_reading(raw@) matches Ok(crawled) && fresh(crawled, now)))
            &&& action is Find <==> !(action is Upsert)
            &&& action matches GuildAction::Find(key) ==> {
                &&& key.realm@ == member.realm@
                &&& key.name@ == member.name@
                &&& member.region is Some ==> key.region@ == member.region->0@
                &&& member.region is None ==> key.region@ == before.region@
            }
            &&& action matches GuildAction::Upsert(m) ==> {
                &&& m.character.realm@ == member.realm@
                &&& m.character.name@ == member.name@
                &&& member.region is Some ==> m.character.region@ == member.region->0@
                &&& member.region is None ==> m.character.region@ == before.region@
                &&& m.guild_name@ == before.name@
                &&& m.guild_realm@ == before.realm@
            }
        },
{
}

/// A member that is written after it was looked up is the one that was looked up, as a member
/// of the guild.
pub proof fn member_is_written_into_its_guild(update: GuildUpdate, member: Membership)
    requires
        update.outcomes@.len() < update.members@.len(),
        update.is_current_member(member),
    ensures
        ({
            let reported = update.members@[update.outcomes@.len() as int].character;
            &&& member.character.realm@ == reported.realm@
            &&& member.character.name@ == reported.name@
            &&& reported.region is Some ==> member.character.region@ == reported.region->0@
            &&& reported.region is None ==> member.character.region@ == update.region@
            &&& member.guild_name@ == update.name@
            &&& member.guild_realm@ == update.realm@
        }),
{
}

/// The summary of a member says where and who it is, and names the guild.
pub proof fn summary_names_the_member(
    guild_region: Seq<char>,
    guild_name: Seq<char>,
    member: RioGuildMember,
)
    ensures
        ({
            let summary = member_summary(guild_region, guild_name, member);
            &&& summary.realm == member.character.realm@
            &&& summary.name == member.character.name@
            &&& summary.guild_name == Some(guild_name)
            &&& member.character.region is Some ==> summary.region == member.character.region->0@
            &&& member.character.region is None ==> summary.region == guild_region
        }),
{
}

proof fn lemma_other_rows_stay(
    roster: Roster,
    before: Tables,
    n: nat,
    key: (Seq<char>, Seq<char>, Seq<char>),
)
    requires
        n <= roster.keys.len(),
        forall|i: int| 0 <= i < n ==> #[trigger] roster.keys[i] != key,
    ensures
        roster.writes(before, n).characters.dom().contains(key)
            == before.characters.dom().contains(key),
        roster.writes(before, n).characters[key] == before.characters[key],
    decreases n,
{
    if n > 0 {
        lemma_other_rows_stay(roster, before, (n - 1) as nat, key);
        assert(roster.keys[n - 1] != key);
    }
}

/// A guild update that is done has put every member of the guild into the tables, the
/// skipped ones too, under the guild's name and realm.
pub proof fn every_member_is_on_the_roster(update: GuildUpdate, before: Tables, i: int)
    requires
        0 <= i < update.members@.len(),
    ensures
        ({
            let after = update.roster().writes(before, update.members@.len());
            let member = update.members@[i].character;
            let region = if member.region is Some {
                member.region->0@
            } else {
                update.region@
            };
            let key = (region, member.realm@, member.name@);
            &&& after.characters.dom().contains(key)
            &&& after.characters[key].name == Some(update.name@)
            &&& after.characters[key].realm == Some(update.realm@)
        }),
{
    lemma_written_members_stay(update.roster(), before, i, update.members@.len());
    assert(update.roster().keys[i] == member_key(update.region@, update.members@[i]));
}

/// A guild update leaves everyone alone who is not a member.
pub proof fn others_stay_as_they_were(
    update: GuildUpdate,
    before: Tables,
    key: (Seq<char>, Seq<char>, Seq<char>),
)
    requires
        forall|i: int|
            #![trigger update.members@[i]]
            0 <= i < update.members@.len() ==> {
                let member = update.members@[i].character;
                ||| member.name@ != key.2
                ||| member.realm@ != key.1
                ||| (member.region is Some && member.region->0@ != key.0)
                ||| (member.region is None && update.region@ != key.0)
            },
    ensures
        ({
            let after = update.roster().writes(before, update.members@.len());
            &&& after.characters.dom().contains(key) == before.characters.dom().contains(key)
            &&& after.characters[key] == before.characters[key]
        }),
{
    let roster = update.roster();
    assert(roster.keys.len() == update.members@.len());
    assert forall|i: int| 0 <= i < roster.keys.len() implies #[trigger] roster.keys[i] != key by {
        assert(roster.keys[i] == member_key(update.region@, update.members@[i]));
    }
    lemma_other_rows_stay(roster, before, update.members@.len(), key);
}

/// A member that was looked up counts as added exactly where the tables did not have it.
pub proof fn added_members_were_unknown(update: GuildUpdate, before: Tables, i: int)
    requires
        update.is_answered_by(before),
        0 <= i < update.outcomes@.len(),
        update.outcomes@.len() <= update.members@.len(),
        update.outcomes@[i] != MemberOutcome::SkippedFresh,
    ensures
        update.outcomes@[i] == MemberOutcome::Added <==> !update.roster().writes(
            before,
            i as nat,
        ).characters.dom().contains(member_key(update.region@, update.members@[i])),
        update.outcomes@[i] == MemberOutcome::Updated <==> update.roster().writes(
            before,
            i as nat,
        ).characters.dom().contains(member_key(update.region@, update.members@[i])),
{
    assert(update.roster().agrees(before, i, update.outcomes@[i]));
    assert(update.roster().keys[i] == member_key(update.region@, update.members@[i]));
}

/// What is kept of a run is what Raider.IO reports of it, under the character's id and as a
/// timed run. Its hash covers the character and the run's dungeon, level, time and identifier.
pub proof fn planned_run_is_the_reported_one(update: CharacterUpdate, run: Run)
    requires
        update.plans(RunPlan::Insert(run)),
    ensures
        ({
            let reported = update.runs@[update.outcomes@.len() as int];
            let id: Option<Seq<char>> = match reported.id {
                Some(RioRunId::Number(text)) => Some(text@),
                Some(RioRunId::Text(text)) => Some(text@),
                Some(RioRunId::Other) => None,
                None => None,
            };
            &&& reported.num_keystone_upgrades != 0
            &&& rfc3339_reading(reported.completed_at@) == Ok::<Moment, Seq<char>>(
                run.completed_at@,
            )
            &&& run.character_id == update.character_id
            &&& run.dungeon_short@ == reported.short_name@
            &&& run.key_level == reported.mythic_level
            &&& run.within_time
            &&& run.season is None
            &&& reported.url is Some ==> run.url is Some && run.url->0@ == reported.url->0@
            &&& reported.url is None ==> run.url is None
            &&& id is Some ==> run.source_run_id is Some && run.source_run_id->0@ == id->0
            &&& id is None ==> run.source_run_id is None
            &&& run.hash@ == hex_text(
                sha256(
                    encode_utf8(
                        lowercase(update.region@) + "|"@ + lowercase(update.realm@) + "|"@
                            + lowercase(update.name@) + "|"@ + uppercase(reported.short_name@)
                            + "|"@ + decimal(reported.mythic_level as int) + "|"@
                            + reported.completed_at@ + "|"@ + (if id is Some {
                            id->0
                        } else {
                            Seq::empty()
                        }),
                    ),
                ),
            )
        }),
{
    let reported = update.current_run();
    hash_covers_every_field(
        update.region@,
        update.realm@,
        update.name@,
        reported.short_name@,
        reported.mythic_level as int,
        reported.completed_at@,
        source_run_id(reported.id),
    );
}

/// A run is passed over exactly where it was not timed or its time cannot be read.
pub proof fn runs_are_passed_over_for_a_reason(update: CharacterUpdate, plan: RunPlan)
    requires
        update.plans(plan),
    ensures
        ({
            let reported = update.runs@[update.outcomes@.len() as int];
            &&& plan is Depleted <==> reported.num_keystone_upgrades == 0
            &&& plan is Unreadable <==> reported.num_keystone_upgrades != 0 && rfc3339_reading(
                reported.completed_at@,
            ) is Err
            &&& plan is Insert <==> reported.num_keystone_upgrades != 0 && rfc3339_reading(
                reported.completed_at@,
            ) is Ok
            &&& plan matches RunPlan::Unreadable(message) ==> rfc3339_reading(
                reported.completed_at@,
            ) == Err::<Moment, Seq<char>>(message@)
        }),
{
}

/// Two runs of one character that differ in dungeon, level, time as it is written or
/// identifier are hashed from different bytes, as long as no field holds a bar.
pub proof fn different_runs_are_hashed_from_different_bytes(
    key: (Seq<char>, Seq<char>, Seq<char>),
    a: RioRun,
    b: RioRun,
) -> (bytes: (Seq<u8>, Seq<u8>))
    requires
        no_bar(lowercase(key.0)),
        no_bar(lowercase(key.1)),
        no_bar(lowercase(key.2)),
        no_bar(uppercase(a.short_name@)),
        no_bar(uppercase(b.short_name@)),
        no_bar(a.completed_at@),
        no_bar(b.completed_at@),
    ensures
        rio_run_hash(key, a) == hex_text(sha256(bytes.0)),
        rio_run_hash(key, b) == hex_text(sha256(bytes.1)),
        bytes.0 == bytes.1 ==> {
            &&& uppercase(a.short_name@) == uppercase(b.short_name@)
            &&& a.mythic_level == b.mythic_level
            &&& a.completed_at@ == b.completed_at@
            &&& (match a.id {
                Some(RioRunId::Number(text)) => text@,
                Some(RioRunId::Text(text)) => text@,
                _ => Seq::empty(),
            }) == (match b.id {
                Some(RioRunId::Number(text)) => text@,
                Some(RioRunId::Text(text)) => text@,
                _ => Seq::empty(),
            })
        },
{
    let x = run_identity(
        key.0,
        key.1,
        key.2,
        a.short_name@,
        a.mythic_level as int,
        a.completed_at@,
        source_run_id(a.id),
    );
    let y = run_identity(
        key.0,
        key.1,
        key.2,
        b.short_name@,
        b.mythic_level as int,
        b.completed_at@,
        source_run_id(b.id),
    );
    let bytes = (encode_utf8(run_text(x)), encode_utf8(run_text(y)));
    if bytes.0 == bytes.1 {
        hashed_bytes_identify_the_run(x, y);
        assert(x.completed_at == a.completed_at@ && y.completed_at == b.completed_at@);
    }
    bytes
}

/// The hash of some run that is kept among the first `n`.
spec fn is_kept_hash(hashes: Seq<Option<Seq<char>>>, n: nat, hash: Seq<char>) -> bool {
    exists|i: int| 0 <= i < n && #[trigger] hashes[i] == Some(hash)
}

proof fn lemma_stored_runs(hashes: Seq<Option<Seq<char>>>, before: Tables, n: nat)
    ensures
        ({
            let after = tables_with_runs(hashes, before, n);
            &&& after.players == before.players
            &&& after.characters == before.characters
            &&& after.links == before.links
            &&& before.runs.finite() ==> after.runs.finite()
            &&& forall|hash: Seq<char>| #[trigger]
                after.runs.contains(hash) <==> before.runs.contains(hash) || is_kept_hash(
                    hashes,
                    n,
                    hash,
                )
        }),
    decreases n,
{
    if n > 0 {
        lemma_stored_runs(hashes, before, (n - 1) as nat);
        let after = tables_with_runs(hashes, before, n);
        let stored = tables_with_runs(hashes, before, (n - 1) as nat);
        assert forall|hash: Seq<char>| #[trigger]
            after.runs.contains(hash) <==> before.runs.contains(hash) || is_kept_hash(
                hashes,
                n,
                hash,
            ) by {
            assert(stored.runs.contains(hash) <==> before.runs.contains(hash) || is_kept_hash(
                hashes,
                (n - 1) as nat,
                hash,
            ));
            assert(is_kept_hash(hashes, n, hash) <==> is_kept_hash(hashes, (n - 1) as nat, hash)
                || hashes[n - 1] == Some(hash));
        }
    }
}

proof fn lemma_inserted_counts(
    hashes: Seq<Option<Seq<char>>>,
    before: Tables,
    outcomes: Seq<RunOutcome>,
)
    requires
        before.runs.finite(),
        outcomes.len() <= hashes.len(),
        forall|i: int|
            0 <= i < outcomes.len() ==> #[trigger] run_agrees(hashes, before, i, outcomes[i]),
        forall|i: int|
            0 <= i < outcomes.len() && hashes[i] is None ==> #[trigger] outcomes[i]
                != RunOutcome::Inserted,
    ensures
        tally(outcomes, RunOutcome::Inserted) == tables_with_runs(
            hashes,
            before,
            outcomes.len(),
        ).runs.len() - before.runs.len(),
    decreases outcomes.len(),
{
    if outcomes.len() > 0 {
        let m = (outcomes.len() - 1) as nat;
        let stored = tables_with_runs(hashes, before, m);
        assert forall|i: int| 0 <= i < m implies #[trigger] run_agrees(
            hashes,
            before,
            i,
            outcomes.drop_last()[i],
        ) by {
            assert(run_agrees(hashes, before, i, outcomes[i]));
        }
        lemma_inserted_counts(hashes, before, outcomes.drop_last());
        lemma_stored_runs(hashes, before, m);
        assert(run_agrees(hashes, before, m as int, outcomes[m as int]));
        if hashes[m as int] is Some && stored.runs.contains(hashes[m as int]->0) {
            assert(stored.runs.insert(hashes[m as int]->0) =~= stored.runs);
        }
    }
}

/// A character update that is done has stored every run that was timed and whose time can be
/// read, and no other; it counts as inserted those that were not there, each once.
pub proof fn every_timed_run_is_stored_once(update: CharacterUpdate, before: Tables)
    requires
        update.is_faithful(),
        update.is_answered_by(before),
        update.outcomes@.len() == update.runs@.len(),
        before.runs.finite(),
    ensures
        ({
            let after = tables_with_runs(update.hashes(), before, update.runs@.len());
            let key = (update.region@, update.realm@, update.name@);
            &&& forall|i: int|
                #![trigger update.runs@[i]]
                0 <= i < update.runs@.len() && update.runs@[i].num_keystone_upgrades != 0
                    && rfc3339_reading(update.runs@[i].completed_at@) is Ok
                    ==> after.runs.contains(rio_run_hash(key, update.runs@[i]))
            &&& forall|hash: Seq<char>| #[trigger]
                after.runs.contains(hash) && !before.runs.contains(hash) ==> exists|i: int|
                    #![trigger update.runs@[i]]
                    0 <= i < update.runs@.len() && update.runs@[i].num_keystone_upgrades != 0
                        && rfc3339_reading(update.runs@[i].completed_at@) is Ok && hash
                        == rio_run_hash(key, update.runs@[i])
            &&& forall|hash: Seq<char>| #[trigger]
                before.runs.contains(hash) ==> after.runs.contains(hash)
            &&& tally(update.outcomes@, RunOutcome::Inserted) == after.runs.len()
                - before.runs.len()
            &&& after.characters == before.characters
            &&& after.links == before.links
            &&& after.players == before.players
        }),
{
    let hashes = update.hashes();
    let n = update.runs@.len();
    let after = tables_with_runs(hashes, before, n);
    let key = (update.region@, update.realm@, update.name@);
    lemma_stored_runs(hashes, before, n);
    assert forall|i: int|
        0 <= i < update.outcomes@.len() && hashes[i] is None implies #[trigger] update.outcomes@[i]
        != RunOutcome::Inserted by {
        assert(update.outcome_fits(i));
    }
    lemma_inserted_counts(hashes, before, update.outcomes@);
    assert forall|i: int|
        #![trigger update.runs@[i]]
        0 <= i < update.runs@.len() && update.runs@[i].num_keystone_upgrades != 0
            && rfc3339_reading(update.runs@[i].completed_at@) is Ok implies after.runs.contains(
        rio_run_hash(key, update.runs@[i]),
    ) by {
        assert(hashes[i] == Some(rio_run_hash(key, update.runs@[i])));
        assert(is_kept_hash(hashes, n, rio_run_hash(key, update.runs@[i])));
    }
    assert forall|hash: Seq<char>| #[trigger]
        after.runs.contains(hash) && !before.runs.contains(hash) implies exists|i: int|
        #![trigger update.runs@[i]]
        0 <= i < update.runs@.len() && update.runs@[i].num_keystone_upgrades != 0
            && rfc3339_reading(update.runs@[i].completed_at@) is Ok && hash == rio_run_hash(
            key,
            update.runs@[i],
        ) by {
        let i = choose|i: int| 0 <= i < n && #[trigger] hashes[i] == Some(hash);
        assert(update.runs@[i].num_keystone_upgrades != 0);
    }
}

/// A failed update prunes its character exactly where its message holds both phrases with
/// which Raider.IO says that it does not know the character; an update that worked or whose
/// task died never does.
pub proof fn only_unknown_characters_are_pruned(outcome: UpdateOutcome)
    ensures
        outcome is Updated ==> !is_gone(outcome),
        outcome is Died ==> !is_gone(outcome),
        outcome matches UpdateOutcome::Failed(_, message) ==> (is_gone(outcome) <==> {
            &&& occurs_in("400 Bad Request"@, message@)
            &&& occurs_in("Could not find requested character"@, message@)
        }),
{
}

/// A request given up on a rate limit counts as failed and prunes nothing.
pub proof fn rate_limited_characters_are_kept(
    key: CharacterKey,
    message: String,
    attempts: nat,
)
    requires
        message@ == "Rate limited after "@ + decimal(attempts as int) + " attempts"@,
    ensures
        !is_gone(UpdateOutcome::Failed(key, message)),
        kind_of(UpdateOutcome::Failed(key, message)) is Failed,
        error_text(UpdateOutcome::Failed(key, message)) == key.name@ + ": Rate limited after "@
            + decimal(attempts as int) + " attempts"@,
{
    rate_limit_is_no_missing_character(attempts);
    reveal_strlit(": ");
    reveal_strlit("Rate limited after ");
    reveal_strlit(": Rate limited after ");
    assert(": "@ + "Rate limited after "@ == ": Rate limited after "@);
    assert(key.name@ + ": "@ + message@ == key.name@ + (": "@ + "Rate limited after "@) + decimal(
        attempts as int,
    ) + " attempts"@);
}

/// What is reported of an update: of one that failed its character and its message, of one
/// whose task died the task's.
pub proof fn failures_are_reported(outcome: UpdateOutcome)
    ensures
        outcome matches UpdateOutcome::Failed(key, message) ==> error_text(outcome) == key.name@
            + ": "@ + message@,
        outcome matches UpdateOutcome::Died(message) ==> error_text(outcome) == "Task panic: "@
            + message@,
{
}

proof fn lemma_kinds_add_up(kinds: Seq<UpdateKind>)
    ensures
        tally(kinds, UpdateKind::Updated) + tally(kinds, UpdateKind::Pruned) + tally(
            kinds,
            UpdateKind::Failed,
        ) == kinds.len(),
    decreases kinds.len(),
{
    if kinds.len() > 0 {
        lemma_kinds_add_up(kinds.drop_last());
    }
}

proof fn lemma_no_kind(outcomes: Seq<UpdateOutcome>, kind: UpdateKind)
    requires
        forall|i: int| 0 <= i < outcomes.len() ==> kind_of(#[trigger] outcomes[i]) != kind,
    ensures
        tally(kinds_of(outcomes), kind) == 0,
{
    assert forall|i: int| 0 <= i < kinds_of(outcomes).len() implies #[trigger] kinds_of(outcomes)[i]
        != kind by {
        assert(kind_of(outcomes[i]) != kind);
    }
    lemma_tally_none(kinds_of(outcomes), kind);
}

/// Every update is accounted for once. Where all worked nothing is reported or pruned, and
/// where no message holds both phrases nothing is pruned.
pub proof fn every_update_is_accounted_for(
    result: UpdateAllResult,
    outcomes: Seq<UpdateOutcome>,
)
    requires
        result.accounts_for(outcomes),
    ensures
        result.updated_ok + result.failed + result.pruned == outcomes.len(),
        result.errors@.len() == result.failed,
        (forall|i: int| 0 <= i < outcomes.len() ==> (#[trigger] outcomes[i]) is Updated)
            ==> result.updated_ok == outcomes.len() && result.errors@.len() == 0,
        (forall|i: int|
            0 <= i < outcomes.len() ==> (#[trigger] outcomes[i] matches UpdateOutcome::Failed(
                _,
                message,
            ) ==> !(occurs_in("400 Bad Request"@, message@) && occurs_in(
                "Could not find requested character"@,
                message@,
            )))) ==> result.pruned == 0,
{
    lemma_kinds_add_up(kinds_of(outcomes));
    lemma_error_count(outcomes);
    assert(Seq::new(result.errors@.len(), |i: int| result.errors@[i]@).len()
        == result.errors@.len());
    if forall|i: int| 0 <= i < outcomes.len() ==> (#[trigger] outcomes[i]) is Updated {
        lemma_no_kind(outcomes, UpdateKind::Failed);
        lemma_no_kind(outcomes, UpdateKind::Pruned);
    }
    if forall|i: int|
        0 <= i < outcomes.len() ==> (#[trigger] outcomes[i] matches UpdateOutcome::Failed(
            _,
            message,
        ) ==> !(occurs_in("400 Bad Request"@, message@) && occurs_in(
            "Could not find requested character"@,
            message@,
        ))) {
        lemma_no_kind(outcomes, UpdateKind::Pruned);
    }
}

proof fn lemma_error_count(outcomes: Seq<UpdateOutcome>)
    ensures
        error_texts(outcomes).len() == tally(kinds_of(outcomes), UpdateKind::Failed),
    decreases outcomes.len(),
{
    if outcomes.len() > 0 {
        lemma_error_count(outcomes.drop_last());
        assert(kinds_of(outcomes).drop_last() == kinds_of(outcomes.drop_last()));
    }
}

/// How a run comes out rests on the run: a depleted one as such, one whose time cannot be
/// read as such, and any other as inserted or as there already.
pub proof fn runs_come_out_as_what_they_are(update: CharacterUpdate, i: int)
    requires
        update.is_faithful(),
        0 <= i < update.outcomes@.len(),
    ensures
        ({
            let run = update.runs@[i];
            let timed = run.num_keystone_upgrades != 0;
            let readable = rfc3339_reading(run.completed_at@) is Ok;
            let outcome = update.outcomes@[i];
            &&& outcome == RunOutcome::Depleted <==> !timed
            &&& outcome == RunOutcome::Unreadable <==> timed && !readable
            &&& outcome == RunOutcome::Inserted || outcome == RunOutcome::Duplicate <==> timed
                && readable
        }),
{
    assert(update.outcome_fits(i));
}

/// An update counts as what it came to: one that worked as updated, one that failed or died as
/// failed, unless it prunes its character.
pub proof fn updates_count_as_what_they_came_to(outcome: UpdateOutcome)
    ensures
        kind_of(outcome) is Updated <==> outcome is Updated,
        kind_of(outcome) is Pruned <==> (outcome matches UpdateOutcome::Failed(_, message)
            && occurs_in("400 Bad Request"@, message@) && occurs_in(
            "Could not find requested character"@,
            message@,
        )),
        outcome is Died ==> kind_of(outcome) is Failed,
{
}

/// A key says what it holds, each in its own place.
pub proof fn key_says_what_it_holds(key: CharacterKey)
    ensures
        key@.0 == key.region@,
        key@.1 == key.realm@,
        key@.2 == key.name@,
{
}

/// Whether a character was crawled recently is judged by the clock: by the calendar date on
/// which it is read, three months back.
pub proof fn recent_crawls_are_judged_by_the_clock(last_crawled_at: Option<&str>, r: bool) -> (now:
    Moment)
    requires
        call_ensures(crawled_recently, (last_crawled_at,), r),
    ensures
        is_clock_reading(now),
        now.valid(),
        now.secs >= 0,
        r <==> (last_crawled_at matches Some(raw) && (rfc3339_reading(raw@) matches Ok(crawled)
            && fresh(crawled, now))),
{
    choose|now: Moment|
        now.valid() && now.secs >= 0 && is_clock_reading(now) && r == #[trigger] recent(
            str_text(last_crawled_at),
            now,
        )
}

} // verus!
