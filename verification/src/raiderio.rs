//! Requests to Raider.IO: what to ask for, when to try again, how long to wait.

use crate::config::RaiderIoConfig;
use crate::text::{
    decimal, decimal_numbers_read_as_themselves, digits, header_reading, header_text,
    header_text_holds_the_bytes, int_text, join, lemma_digits, occurs_in, parse_u64,
    unsigned_reading,
};
use rand::Rng;
use vstd::prelude::*;

verus! {

/// How long a request may take, in seconds.
pub const REQUEST_TIMEOUT_SECS: u64 = 30;

/// A parameter of a request's query string.
#[derive(Debug)]
pub struct QueryParam {
    pub name: &'static str,
    pub value: String,
}

impl View for QueryParam {
    type V = (Seq<char>, Seq<char>);

    open spec fn view(&self) -> (Seq<char>, Seq<char>) {
        (self.name@, self.value@)
    }
}

/// A GET request.
#[derive(Debug)]
pub struct ProfileRequest {
    pub url: String,
    pub query: Vec<QueryParam>,
}

/// The parameters of a profile request.
pub open spec fn profile_query(
    region: Seq<char>,
    realm: Seq<char>,
    name: Seq<char>,
    fields: Seq<char>,
) -> Seq<(Seq<char>, Seq<char>)> {
    seq![("region"@, region), ("realm"@, realm), ("name"@, name), ("fields"@, fields)]
}

/// `request` asks `url` with the parameters of `query`, in order.
pub open spec fn asks(
    request: ProfileRequest,
    url: Seq<char>,
    query: Seq<(Seq<char>, Seq<char>)>,
) -> bool {
    &&& request.url@ == url
    &&& request.query@.len() == query.len()
    &&& forall|i: int| 0 <= i < query.len() ==> #[trigger] request.query@[i]@ == query[i]
}

fn profile_request(url: String, region: &str, realm: &str, name: &str, fields: &str) -> (r:
    ProfileRequest)
    ensures
        asks(r, url@, profile_query(region@, realm@, name@, fields@)),
{
    let mut query: Vec<QueryParam> = Vec::new();
    query.push(QueryParam { name: "region", value: String::from(region) });
    query.push(QueryParam { name: "realm", value: String::from(realm) });
    query.push(QueryParam { name: "name", value: String::from(name) });
    query.push(QueryParam { name: "fields", value: String::from(fields) });
    ProfileRequest { url, query }
}

/// `base` doubled `k` times.
pub open spec fn doubled(base: int, k: nat) -> int
    decreases k,
{
    if k == 0 {
        base
    } else {
        2 * doubled(base, (k - 1) as nat)
    }
}

/// The backoff before jitter: the base on the first attempt, doubled with each further
/// one, up to the maximum.
pub open spec fn capped_backoff(cfg: RaiderIoConfig, attempt: int) -> int {
    let k: nat = if attempt > 1 {
        (attempt - 1) as nat
    } else {
        0
    };
    let exp = doubled(cfg.base_backoff_ms as int, k);
    if exp < cfg.max_backoff_ms {
        exp
    } else {
        cfg.max_backoff_ms as int
    }
}

/// The wait in milliseconds for a given jitter: what the server asked for, where that
/// is longer than the backoff.
pub open spec fn backoff(
    cfg: RaiderIoConfig,
    attempt: int,
    header_ms: Option<u64>,
    jitter: int,
) -> int {
    let sum = capped_backoff(cfg, attempt) + jitter;
    let computed = if sum <= u64::MAX {
        sum
    } else {
        u64::MAX as int
    };
    match header_ms {
        Some(h) => if h >= computed {
            h as int
        } else {
            computed
        },
        None => computed,
    }
}

/// `ms` is a wait for some jitter, which is at most a quarter of the backoff.
pub open spec fn is_backoff(
    cfg: RaiderIoConfig,
    attempt: int,
    header_ms: Option<u64>,
    ms: int,
) -> bool {
    exists|jitter: int|
        0 <= jitter <= capped_backoff(cfg, attempt) / 4 && ms == #[trigger] backoff(
            cfg,
            attempt,
            header_ms,
            jitter,
        )
}

/// A random number up to `max`: `rand::Rng::gen_range` on `rand::thread_rng`. What is
/// claimed is its range.
#[verifier::external_body]
fn random_up_to(max: u64) -> (r: u64)
    ensures
        r <= max,
{
    rand::thread_rng().gen_range(0..=max)
}

/// `r` was drawn at random from the numbers up to `max`.
pub closed spec fn is_drawn_up_to(max: int, r: int) -> bool {
    exists|m: u64, drawn: u64| #[trigger]
        call_ensures(random_up_to, (m,), drawn) && m == max && drawn == r
}

/// Every number that was drawn came out of a call that drew it.
proof fn drawn_number_was_drawn(max: int, r: int) -> (call: (u64, u64))
    requires
        is_drawn_up_to(max, r),
    ensures
        call_ensures(random_up_to, (call.0,), call.1),
        call.0 == max,
        call.1 == r,
        r <= max,
{
    choose|m: u64, drawn: u64| #[trigger]
        call_ensures(random_up_to, (m,), drawn) && m == max && drawn == r
}

/// What `http::StatusCode` displays for a status code.
pub uninterp spec fn status_display(code: int) -> Seq<char>;

/// The display of a status code: `reqwest::StatusCode`, which is `http::StatusCode`.
/// What is claimed is that the code alone decides the text, that the text starts with
/// the code and a space, and what it is for code 400.
#[verifier::external_body]
fn status_text(code: u16) -> (r: String)
    requires
        100 <= code <= 999,
    ensures
        r@ == status_display(code as int),
        (decimal(code as int) + " "@).is_prefix_of(r@),
        code == 400 ==> r@ == "400 Bad Request"@,
{
    reqwest::StatusCode::from_u16(code).unwrap().to_string()
}

/// The number of seconds in a `Retry-After` header.
pub open spec fn retry_after_reading(header: Option<Seq<u8>>) -> Option<int> {
    match header {
        Some(bytes) => match header_reading(bytes) {
            Some(text) => unsigned_reading(text, u64::MAX as int),
            None => None,
        },
        None => None,
    }
}

/// The number of seconds in a `Retry-After` header, where it holds one.
pub fn retry_after_secs(header: Option<&[u8]>) -> (r: Option<u64>)
    ensures
        match r {
            Some(secs) => header matches Some(bytes) && retry_after_reading(Some(bytes@)) == Some(
                secs as int,
            ),
            None => header matches Some(bytes) ==> retry_after_reading(Some(bytes@)) is None,
        },
{
    match header {
        Some(bytes) => match header_text(bytes) {
            Some(text) => parse_u64(text.as_str()),
            None => None,
        },
        None => None,
    }
}

/// How an attempt went.
#[derive(Debug)]
pub enum Attempt {
    /// No response came; the error's message.
    NetworkError(String),
    /// A response came, with its status and the seconds of its `Retry-After` header.
    Response { status: u16, retry_after_secs: Option<u64> },
}

/// What to do after an attempt.
#[derive(Debug)]
pub enum RetryStep {
    /// Wait this many milliseconds and try again.
    Wait(u64),
    /// Give up with this message.
    Fail(String),
    /// Read the body and give up with `error_message`.
    ReadError,
    /// The response is the answer.
    Done,
}

/// The attempts that one request has taken.
#[derive(Debug)]
pub struct Retry {
    pub attempt: u32,
}

impl Retry {
    pub fn new() -> (r: Self)
        ensures
            r.attempt == 0,
    {
        Retry { attempt: 0 }
    }
}

/// The attempt counts against the retries: no response, status 429, or a server error.
pub open spec fn is_transient(outcome: Attempt) -> bool {
    match outcome {
        Attempt::NetworkError(_) => true,
        Attempt::Response { status, .. } => status == 429 || 500 <= status < 600,
    }
}

/// The message of a request given up after `attempt` attempts.
pub open spec fn give_up_text(outcome: Attempt, attempt: int) -> Seq<char> {
    match outcome {
        Attempt::NetworkError(e) => "Network error after "@ + decimal(attempt) + " attempts: "@
            + e@,
        Attempt::Response { status, .. } => if status == 429 {
            "Rate limited after "@ + decimal(attempt) + " attempts"@
        } else {
            server_error_text(status_display(status as int), attempt)
        },
    }
}

/// The wait in milliseconds that a response asks for: only one with status 429 does.
pub open spec fn asked_wait_ms(outcome: Attempt) -> Option<u64> {
    match outcome {
        Attempt::Response { status: 429, retry_after_secs: Some(secs) } => Some(
            (secs * 1_000) as u64,
        ),
        _ => None,
    }
}

/// Raider.IO says that the character does not exist.
pub open spec fn is_missing_character(message: Seq<char>) -> bool {
    occurs_in("400 Bad Request"@, message) && occurs_in(
        "Could not find requested character"@,
        message,
    )
}

proof fn lemma_occurs_in_middle(
    needle: Seq<char>,
    inner: Seq<char>,
    before: Seq<char>,
    after: Seq<char>,
)
    requires
        occurs_in(needle, inner),
    ensures
        occurs_in(needle, before + inner + after),
{
    let i = choose|i: int|
        0 <= i && i + needle.len() <= inner.len() && #[trigger] inner.subrange(i, i + needle.len())
            == needle;
    let whole = before + inner + after;
    let j = before.len() + i;
    assert(whole.subrange(j, j + needle.len()) == inner.subrange(i, i + needle.len()));
}

/// The message for a response with this status that is not worth another attempt.
pub fn error_message_with(status: &str, body: &str) -> (r: String)
    ensures
        r@ == "Raider.IO error "@ + status@ + ": "@ + body@,
{
    let mut r = join("Raider.IO error ", status);
    r.append(": ");
    r.append(body);
    r
}

/// The message for a response that is no success and not worth another attempt.
pub fn error_message(status: u16, body: &str) -> (r: String)
    requires
        100 <= status <= 999,
    ensures
        r@ == "Raider.IO error "@ + status_display(status as int) + ": "@ + body@,
        status == 400 ==> r@ == "Raider.IO error 400 Bad Request: "@ + body@,
        status == 400 && occurs_in("Could not find requested character"@, body@)
            ==> is_missing_character(r@),
{
    let text = status_text(status);
    let r = error_message_with(text.as_str(), body);
    proof {
        if status == 400 {
            reveal_strlit("Raider.IO error ");
            reveal_strlit("400 Bad Request");
            reveal_strlit(": ");
            reveal_strlit("Raider.IO error 400 Bad Request: ");
            assert("Raider.IO error "@ + "400 Bad Request"@ + ": "@
                == "Raider.IO error 400 Bad Request: "@);
        }
        if status == 400 && occurs_in("Could not find requested character"@, body@) {
            let bad = "400 Bad Request"@;
            assert(text@.subrange(0, 0 + bad.len() as int) == bad);
            assert(occurs_in(bad, text@));
            lemma_occurs_in_middle(bad, text@, "Raider.IO error "@, ": "@ + body@);
            assert("Raider.IO error "@ + text@ + (": "@ + body@) == r@);
            lemma_occurs_in_middle(
                "Could not find requested character"@,
                body@,
                "Raider.IO error "@ + text@ + ": "@,
                Seq::empty(),
            );
            assert("Raider.IO error "@ + text@ + ": "@ + body@ + Seq::<char>::empty() == r@);
        }
    }
    r
}

/// What is said of a server error with this status after `attempt` attempts.
pub open spec fn server_error_text(status: Seq<char>, attempt: int) -> Seq<char> {
    "Server error "@ + status + " after "@ + decimal(attempt) + " attempts"@
}

/// The message of a request given up on a server error with this status.
pub fn server_error_message(status: &str, attempt: u32) -> (r: String)
    ensures
        r@ == server_error_text(status@, attempt as int),
{
    let mut r = join("Server error ", status);
    r.append(" after ");
    r.append(int_text(attempt as i64).as_str());
    r.append(" attempts");
    r
}

proof fn lemma_doubled_grows(base: int, j: nat, k: nat)
    requires
        base >= 0,
        j <= k,
    ensures
        0 <= doubled(base, j) <= doubled(base, k),
        base == 0 ==> doubled(base, k) == 0,
    decreases k,
{
    if j < k {
        lemma_doubled_grows(base, j, (k - 1) as nat);
    } else if k > 0 {
        lemma_doubled_grows(base, (j - 1) as nat, (k - 1) as nat);
    }
}

/// Asks Raider.IO for profiles.
#[derive(Debug, Clone)]
pub struct RaiderIoClient {
    pub cfg: RaiderIoConfig,
}

impl RaiderIoClient {
    pub fn new(cfg: RaiderIoConfig) -> (r: Self)
        ensures
            r.cfg == cfg,
    {
        RaiderIoClient { cfg }
    }

    /// The request for a character's profile with its recent runs.
    pub fn get_character_profile(&self, region: &str, realm: &str, name: &str) -> (r:
        ProfileRequest)
        ensures
            asks(
                r,
                self.cfg.base_url@ + "/characters/profile"@,
                profile_query(region@, realm@, name@, "mythic_plus_recent_runs"@),
            ),
    {
        let url = join(self.cfg.base_url.as_str(), "/characters/profile");
        profile_request(url, region, realm, name, "mythic_plus_recent_runs")
    }

    /// The request for a guild's profile with its members.
    pub fn get_guild_profile(&self, region: &str, realm: &str, name: &str) -> (r: ProfileRequest)
        ensures
            asks(
                r,
                self.cfg.base_url@ + "/guilds/profile"@,
                profile_query(region@, realm@, name@, "members"@),
            ),
    {
        let url = join(self.cfg.base_url.as_str(), "/guilds/profile");
        profile_request(url, region, realm, name, "members")
    }

    /// The backoff before jitter.
    fn capped_ms(&self, attempt: u32) -> (r: u64)
        ensures
            r == capped_backoff(self.cfg, attempt as int),
    {
        let doublings: u32 = attempt.saturating_sub(1);
        let max: u64 = self.cfg.max_backoff_ms;
        let mut ms: u64 = self.cfg.base_backoff_ms;
        let mut done: u32 = 0;
        while done < doublings && ms != 0 && ms < max
            invariant
                done <= doublings,
                max == self.cfg.max_backoff_ms,
                ms == doubled(self.cfg.base_backoff_ms as int, done as nat) || (ms == u64::MAX
                    && doubled(self.cfg.base_backoff_ms as int, done as nat) >= u64::MAX),
            decreases doublings - done,
        {
            ms = ms.saturating_add(ms);
            done = done + 1;
        }
        proof {
            lemma_doubled_grows(self.cfg.base_backoff_ms as int, done as nat, doublings as nat);
            lemma_doubled_grows(self.cfg.base_backoff_ms as int, 0, done as nat);
        }
        if ms < max {
            ms
        } else {
            max
        }
    }

    /// Exponential backoff with jitter, in milliseconds: the longer of it and
    /// `header_ms`, where that is given.
    pub fn backoff_ms(&self, attempt: u32, header_ms: Option<u64>) -> (r: u64)
        ensures
            is_backoff(self.cfg, attempt as int, header_ms, r as int),
            exists|jitter: int|
                is_drawn_up_to(capped_backoff(self.cfg, attempt as int) / 4, jitter) && r
                    == #[trigger] backoff(self.cfg, attempt as int, header_ms, jitter),
    {
        let jitter: u64 = self.jitter(attempt);
        let r = self.backoff_ms_with(attempt, header_ms, jitter);
        assert(r == backoff(self.cfg, attempt as int, header_ms, jitter as int));
        r
    }

    /// A random jitter of at most a quarter of the backoff.
    fn jitter(&self, attempt: u32) -> (r: u64)
        ensures
            r <= capped_backoff(self.cfg, attempt as int) / 4,
            is_drawn_up_to(capped_backoff(self.cfg, attempt as int) / 4, r as int),
    {
        let max: u64 = self.capped_ms(attempt) / 4;
        random_up_to(max)
    }

    /// The backoff for a given jitter, in milliseconds.
    pub fn backoff_ms_with(&self, attempt: u32, header_ms: Option<u64>, jitter: u64) -> (r: u64)
        ensures
            r == backoff(self.cfg, attempt as int, header_ms, jitter as int),
    {
        let computed: u64 = self.capped_ms(attempt).saturating_add(jitter);
        match header_ms {
            Some(h) => if h >= computed {
                h
            } else {
                computed
            },
            None => computed,
        }
    }

    /// What `before` becomes after an attempt, and what to do, where the jitter of a wait
    /// is `jitter`.
    pub open spec fn goes_on(
        self,
        before: Retry,
        after: Retry,
        outcome: Attempt,
        jitter: int,
        step: RetryStep,
    ) -> bool {
        let attempt = before.attempt + 1;
        if is_transient(outcome) {
            &&& after.attempt == attempt
            &&& match step {
                RetryStep::Wait(ms) => {
                    &&& attempt <= self.cfg.max_retries
                    &&& ms == backoff(self.cfg, attempt, asked_wait_ms(outcome), jitter)
                },
                RetryStep::Fail(message) => {
                    &&& attempt > self.cfg.max_retries
                    &&& message@ == give_up_text(outcome, attempt)
                },
                _ => false,
            }
        } else {
            &&& after.attempt == before.attempt
            &&& match step {
                RetryStep::Done => outcome matches Attempt::Response { status, .. } && 200 <= status
                    < 300,
                RetryStep::ReadError => outcome matches Attempt::Response { status, .. } && !(200
                    <= status < 300),
                _ => false,
            }
        }
    }

    /// What to do after an attempt, where the jitter of a wait is `jitter`: try again for as
    /// long as there are retries left and the outcome may be a passing one.
    pub fn get_with_retry_with(&self, retry: &mut Retry, outcome: Attempt, jitter: u64) -> (r:
        RetryStep)
        requires
            old(retry).attempt < u32::MAX,
            outcome matches Attempt::Response { status, .. } ==> 100 <= status <= 999,
            old(retry).attempt < self.cfg.max_retries ==> (outcome matches Attempt::Response {
                status: 429,
                retry_after_secs: Some(secs),
            } ==> secs * 1_000 <= u64::MAX),
        ensures
            self.goes_on(*old(retry), *final(retry), outcome, jitter as int, r),
    {
        match outcome {
            Attempt::NetworkError(e) => {
                retry.attempt = retry.attempt + 1;
                if retry.attempt > self.cfg.max_retries {
                    let mut message = join(
                        "Network error after ",
                        int_text(retry.attempt as i64).as_str(),
                    );
                    message.append(" attempts: ");
                    message.append(e.as_str());
                    return RetryStep::Fail(message);
                }
                RetryStep::Wait(self.backoff_ms_with(retry.attempt, None, jitter))
            },
            Attempt::Response { status, retry_after_secs } => {
                if status == 429 {
                    retry.attempt = retry.attempt + 1;
                    if retry.attempt > self.cfg.max_retries {
                        let mut message = join(
                            "Rate limited after ",
                            int_text(retry.attempt as i64).as_str(),
                        );
                        message.append(" attempts");
                        return RetryStep::Fail(message);
                    }
                    let header_ms: Option<u64> = match retry_after_secs {
                        Some(secs) => Some(secs * 1_000),
                        None => None,
                    };
                    return RetryStep::Wait(
                        self.backoff_ms_with(retry.attempt, header_ms, jitter),
                    );
                }
                if status >= 500 && status < 600 {
                    retry.attempt = retry.attempt + 1;
                    if retry.attempt > self.cfg.max_retries {
                        return RetryStep::Fail(
                            server_error_message(status_text(status).as_str(), retry.attempt),
                        );
                    }
                    return RetryStep::Wait(self.backoff_ms_with(retry.attempt, None, jitter));
                }
                if status < 200 || status >= 300 {
                    return RetryStep::ReadError;
                }
                RetryStep::Done
            },
        }
    }

    /// What to do after an attempt. The jitter of a wait is at most a quarter of its backoff.
    pub fn get_with_retry(&self, retry: &mut Retry, outcome: Attempt) -> (r: RetryStep)
        requires
            old(retry).attempt < u32::MAX,
            outcome matches Attempt::Response { status, .. } ==> 100 <= status <= 999,
            old(retry).attempt < self.cfg.max_retries ==> (outcome matches Attempt::Response {
                status: 429,
                retry_after_secs: Some(secs),
            } ==> secs * 1_000 <= u64::MAX),
        ensures
            exists|jitter: int|
                0 <= jitter <= capped_backoff(self.cfg, old(retry).attempt + 1) / 4
                    && is_drawn_up_to(
                    capped_backoff(self.cfg, old(retry).attempt + 1) / 4,
                    jitter,
                ) && #[trigger] self.goes_on(*old(retry), *final(retry), outcome, jitter, r),
    {
        let jitter: u64 = self.jitter(retry.attempt + 1);
        self.get_with_retry_with(retry, outcome, jitter)
    }
}

/// The backoff before jitter never shrinks from one attempt to a later one, and never
/// passes the maximum.
pub proof fn backoff_grows_to_its_cap(cfg: RaiderIoConfig, a: int, b: int)
    requires
        0 <= a <= b,
    ensures
        0 <= capped_backoff(cfg, a) <= capped_backoff(cfg, b) <= cfg.max_backoff_ms,
{
    let j: nat = if a > 1 {
        (a - 1) as nat
    } else {
        0
    };
    let k: nat = if b > 1 {
        (b - 1) as nat
    } else {
        0
    };
    lemma_doubled_grows(cfg.base_backoff_ms as int, j, k);
    lemma_doubled_grows(cfg.base_backoff_ms as int, 0, j);
}

/// A wait is never shorter than the backoff or than what the server asked for, and
/// never longer than the longer of what it asked for and the backoff with a quarter
/// on top.
pub proof fn wait_is_bounded(cfg: RaiderIoConfig, attempt: int, header_ms: Option<u64>, ms: int)
    requires
        attempt >= 0,
        is_backoff(cfg, attempt, header_ms, ms),
    ensures
        ms >= capped_backoff(cfg, attempt),
        header_ms matches Some(h) ==> ms >= h,
        ms <= capped_backoff(cfg, attempt) + capped_backoff(cfg, attempt) / 4 || header_ms == Some(
            ms as u64,
        ),
{
    backoff_grows_to_its_cap(cfg, attempt, attempt);
}

/// A number that was drawn lies within its range.
pub proof fn drawn_numbers_stay_in_range(max: int, r: int)
    requires
        is_drawn_up_to(max, r),
    ensures
        0 <= r <= max,
{
    drawn_number_was_drawn(max, r);
}

/// A request for a profile names the character or guild by region, realm and name, in that
/// order, and then what it wants of the profile.
pub proof fn profile_request_names_its_subject(
    request: ProfileRequest,
    url: Seq<char>,
    region: Seq<char>,
    realm: Seq<char>,
    name: Seq<char>,
    fields: Seq<char>,
)
    requires
        asks(request, url, profile_query(region, realm, name, fields)),
    ensures
        request.url@ == url,
        request.query@.len() == 4,
        request.query@[0].name@ == "region"@,
        request.query@[0].value@ == region,
        request.query@[1].name@ == "realm"@,
        request.query@[1].value@ == realm,
        request.query@[2].name@ == "name"@,
        request.query@[2].value@ == name,
        request.query@[3].name@ == "fields"@,
        request.query@[3].value@ == fields,
{
    let query = profile_query(region, realm, name, fields);
    assert(request.query@[0]@ == query[0]);
    assert(request.query@[1]@ == query[1]);
    assert(request.query@[2]@ == query[2]);
    assert(request.query@[3]@ == query[3]);
}

/// The first attempt waits for the base backoff, as far as the cap lets it, and each further
/// one for twice as long as the one before, as far as the cap lets it.
pub proof fn backoff_doubles_up_to_its_cap(cfg: RaiderIoConfig, attempt: int)
    requires
        attempt >= 1,
    ensures
        capped_backoff(cfg, 0) == capped_backoff(cfg, 1),
        capped_backoff(cfg, 1) == if cfg.base_backoff_ms <= cfg.max_backoff_ms {
            cfg.base_backoff_ms as int
        } else {
            cfg.max_backoff_ms as int
        },
        capped_backoff(cfg, attempt + 1) == if 2 * capped_backoff(cfg, attempt)
            <= cfg.max_backoff_ms {
            2 * capped_backoff(cfg, attempt)
        } else {
            cfg.max_backoff_ms as int
        },
{
    lemma_doubled_grows(cfg.base_backoff_ms as int, 0, (attempt - 1) as nat);
    assert(doubled(cfg.base_backoff_ms as int, attempt as nat) == 2 * doubled(
        cfg.base_backoff_ms as int,
        (attempt - 1) as nat,
    ));
}

/// A wait is the backoff with the jitter on top, or what the server asked for where that is
/// longer; it is cut off where it does not fit.
pub proof fn wait_is_the_longer_of_two(
    cfg: RaiderIoConfig,
    attempt: int,
    header_ms: Option<u64>,
    jitter: int,
)
    requires
        attempt >= 0,
        jitter >= 0,
    ensures
        ({
            let own = capped_backoff(cfg, attempt) + jitter;
            let fits = if own <= u64::MAX {
                own
            } else {
                u64::MAX as int
            };
            &&& header_ms is None ==> backoff(cfg, attempt, header_ms, jitter) == fits
            &&& header_ms matches Some(h) ==> backoff(cfg, attempt, header_ms, jitter) >= h
            &&& backoff(cfg, attempt, header_ms, jitter) >= fits
            &&& backoff(cfg, attempt, header_ms, jitter) == fits || header_ms == Some(
                backoff(cfg, attempt, header_ms, jitter) as u64,
            )
        }),
{
    backoff_grows_to_its_cap(cfg, attempt, attempt);
}

/// What becomes of an attempt: a success is taken; no response, a rate limit or a server
/// error is tried again while there are retries; anything else is an error at once.
pub proof fn attempts_go_on(
    client: RaiderIoClient,
    before: Retry,
    after: Retry,
    outcome: Attempt,
    jitter: int,
    step: RetryStep,
)
    requires
        client.goes_on(before, after, outcome, jitter, step),
    ensures
        outcome matches Attempt::Response { status, .. } ==> (200 <= status <= 299 <==> step
            is Done),
        step is Done ==> outcome is Response && after.attempt == before.attempt,
        step is ReadError <==> (outcome matches Attempt::Response { status, .. } && !(200
            <= status <= 299 || status == 429 || 500 <= status <= 599)),
        step is ReadError ==> after.attempt == before.attempt,
        (outcome is NetworkError || (outcome matches Attempt::Response { status, .. } && (status
            == 429 || 500 <= status <= 599))) ==> {
            &&& after.attempt == before.attempt + 1
            &&& step is Wait <==> before.attempt < client.cfg.max_retries
            &&& step is Fail <==> before.attempt >= client.cfg.max_retries
        },
        step matches RetryStep::Wait(ms) ==> ms >= capped_backoff(client.cfg, after.attempt as int)
            || jitter < 0,
        step matches RetryStep::Wait(ms) ==> (outcome matches Attempt::Response {
            status: 429,
            retry_after_secs: Some(secs),
        } ==> secs * 1_000 <= u64::MAX ==> ms >= secs * 1_000),
        step matches RetryStep::Wait(ms) ==> (!(outcome matches Attempt::Response {
            status: 429,
            retry_after_secs: Some(_),
        }) ==> ms == capped_backoff(client.cfg, after.attempt as int) + jitter || capped_backoff(
            client.cfg,
            after.attempt as int,
        ) + jitter > u64::MAX),
{
    backoff_grows_to_its_cap(client.cfg, after.attempt as int, after.attempt as int);
}

/// What is said of an attempt that is given up.
pub proof fn given_up_attempts_say_why(
    client: RaiderIoClient,
    before: Retry,
    after: Retry,
    outcome: Attempt,
    jitter: int,
    message: String,
)
    requires
        client.goes_on(before, after, outcome, jitter, RetryStep::Fail(message)),
    ensures
        outcome matches Attempt::NetworkError(e) ==> message@ == "Network error after "@ + decimal(
            before.attempt + 1,
        ) + " attempts: "@ + e@,
        outcome matches Attempt::Response { status: 429, .. } ==> message@ == "Rate limited after "@
            + decimal(before.attempt + 1) + " attempts"@,
        outcome matches Attempt::Response { status, .. } ==> status != 429 ==> message@
            == "Server error "@ + status_display(status as int) + " after "@ + decimal(
            before.attempt + 1,
        ) + " attempts"@,
{
}

/// A text is taken for the news that a character does not exist exactly where both phrases
/// stand in it.
pub proof fn missing_character_takes_both_phrases(message: Seq<char>)
    ensures
        is_missing_character(message) <==> {
            &&& exists|i: int|
                0 <= i && i + "400 Bad Request"@.len() <= message.len()
                    && #[trigger] message.subrange(i, i + "400 Bad Request"@.len())
                    == "400 Bad Request"@
            &&& exists|j: int|
                0 <= j && j + "Could not find requested character"@.len() <= message.len()
                    && #[trigger] message.subrange(
                    j,
                    j + "Could not find requested character"@.len(),
                ) == "Could not find requested character"@
        },
{
}

/// Where a needle has a character that a text lacks, it does not occur in the text.
proof fn lemma_lacking_character(needle: Seq<char>, text: Seq<char>, at: int)
    requires
        0 <= at < needle.len(),
        forall|i: int| 0 <= i < text.len() ==> #[trigger] text[i] != needle[at],
    ensures
        !occurs_in(needle, text),
{
    if occurs_in(needle, text) {
        let i = choose|i: int|
            0 <= i && i + needle.len() <= text.len() && #[trigger] text.subrange(
                i,
                i + needle.len(),
            ) == needle;
        assert(text.subrange(i, i + needle.len())[at] == text[i + at]);
    }
}

/// A request that is given up on a rate limit says nothing of a missing character, however
/// many attempts it took.
pub proof fn rate_limit_is_no_missing_character(attempts: nat)
    ensures
        !is_missing_character("Rate limited after "@ + decimal(attempts as int) + " attempts"@),
{
    reveal_strlit("Rate limited after ");
    reveal_strlit(" attempts");
    reveal_strlit("400 Bad Request");
    lemma_digits(attempts);
    let text = "Rate limited after "@ + decimal(attempts as int) + " attempts"@;
    assert("400 Bad Request"@[4] == 'B');
    assert forall|i: int| 0 <= i < text.len() implies #[trigger] text[i] != 'B' by {
        if i < 19 {
            assert(text[i] == "Rate limited after "@[i]);
        } else if i < 19 + decimal(attempts as int).len() {
            assert(text[i] == digits(attempts)[i - 19]);
        } else {
            assert(text[i] == " attempts"@[i - 19 - decimal(attempts as int).len()]);
        }
    }
    lemma_lacking_character("400 Bad Request"@, text, 4);
}

/// An answer with status 400 is taken for the news that a character does not exist exactly
/// where its body says so.
pub proof fn bad_request_is_missing_where_its_body_says_so(body: Seq<char>)
    ensures
        is_missing_character("Raider.IO error 400 Bad Request: "@ + body) <==> occurs_in(
            "Could not find requested character"@,
            body,
        ),
{
    let head = "Raider.IO error 400 Bad Request: "@;
    let phrase = "Could not find requested character"@;
    let bad = "400 Bad Request"@;
    let message = head + body;
    reveal_strlit("Raider.IO error 400 Bad Request: ");
    reveal_strlit("Could not find requested character");
    reveal_strlit("400 Bad Request");
    assert(message.subrange(16int, 16int + bad.len()) == bad);
    assert(occurs_in(bad, message));
    if occurs_in(phrase, body) {
        lemma_occurs_in_middle(phrase, body, head, Seq::empty());
        assert(head + body + Seq::<char>::empty() == message);
    }
    if occurs_in(phrase, message) {
        let i = choose|i: int|
            0 <= i && i + phrase.len() <= message.len() && #[trigger] message.subrange(
                i,
                i + phrase.len(),
            ) == phrase;
        assert(message.subrange(i, i + phrase.len())[0] == message[i]);
        assert(phrase[0] == 'C');
        if i < head.len() {
            assert(message[i] == head[i]);
        }
        let j = i - head.len();
        assert(body.subrange(j, j + phrase.len()) == message.subrange(i, i + phrase.len()));
    }
}

/// A `Retry-After` header that is a number in decimal gives it in seconds. One that is not
/// there gives nothing, nor one with a byte that is no digit, but for a plus sign in front.
pub proof fn retry_after_is_in_seconds(header: Option<Seq<u8>>, n: nat)
    requires
        n <= u64::MAX,
    ensures
        header is None ==> retry_after_reading(header) is None,
        header matches Some(bytes) ==> {
            &&& bytes.len() == decimal(n as int).len() && (forall|i: int|
                0 <= i < bytes.len() ==> #[trigger] bytes[i] as char == decimal(n as int)[i])
                ==> retry_after_reading(header) == Some(n as int)
            &&& bytes.len() == 0 ==> retry_after_reading(header) is None
            &&& forall|i: int|
                0 <= i < bytes.len() && !(48 <= #[trigger] bytes[i] <= 57) && (i > 0 || bytes[i]
                    != 43) ==> retry_after_reading(header) is None
        },
{
    if let Some(bytes) = header {
        let text = Seq::new(bytes.len(), |i: int| bytes[i] as char);
        decimal_numbers_read_as_themselves(n, u64::MAX as int, text);
        lemma_digits(n);
        header_text_holds_the_bytes(bytes);
        if bytes.len() == decimal(n as int).len() && (forall|i: int|
            0 <= i < bytes.len() ==> #[trigger] bytes[i] as char == decimal(n as int)[i]) {
            assert(text == decimal(n as int));
            assert forall|i: int| 0 <= i < bytes.len() implies 32 <= #[trigger] bytes[i] < 127
                || bytes[i] == 9 by {
                assert(text[i] == digits(n)[i]);
            }
            assert(header_reading(bytes)->0 == text);
        }
        if header_reading(bytes) is Some {
            assert(header_reading(bytes)->0 == text);
        }
        assert forall|i: int|
            0 <= i < bytes.len() && !(48 <= #[trigger] bytes[i] <= 57) && (i > 0 || bytes[i]
                != 43) implies retry_after_reading(header) is None by {
            assert(text[i] == bytes[i] as char);
            assert(!('0' <= text[i] <= '9'));
        }
    }
}

} // verus!
