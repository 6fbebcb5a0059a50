//! How actors are reached.

use vstd::prelude::*;
use vstd::string::*;

#[allow(unused_imports)]
use crate::ext_proc::inference::{header_text, is_header_text_byte};
#[allow(unused_imports)]
use crate::json::{put_member, Json, JsonView};
#[allow(unused_imports)]
use crate::substrate::{
    authority_host, code_text, parse_authority, ActorRef, GrpcCode, SubstrateError,
};
#[allow(unused_imports)]
use crate::text::{chars_of, debug_quote, debug_quoted, find_char, has_suffix, string_of};

verus! {

/// The domain in which actors have their names.
pub const ACTOR_DNS_SUFFIX: &'static str = ".actors.resources.substrate.ate.dev";

/// The header with which a worker says that an actor has moved.
pub const STALE_ASSIGNMENT_HEADER: &'static str = "x-ate-assignment-stale";

/// How long resuming an actor may take, in seconds.
pub const RESUME_TIMEOUT_SECS: u64 = 15;

/// How often resuming an actor is tried.
pub const RESUME_ATTEMPTS: u32 = 7;

/// How long is waited before the second attempt, in nanoseconds.
pub const FIRST_RETRY_DELAY_NANOS: u64 = 200_000_000;

/// The port of actors where none is configured.
pub const DEFAULT_TARGET_PORT: u16 = 80;

/// How long assignments are reused where nothing is configured, in nanoseconds.
pub const DEFAULT_CACHE_TTL_NANOS: u64 = 5_000_000_000;

/// How actors are reached, by the names of their hosts.
#[derive(Debug)]
pub struct SubstrateIngress {
    /// The backend that resumes actors.
    pub target: String,
    /// The port of actors.
    pub target_port: u16,
    /// How long an assignment is reused, in nanoseconds; with zero it is not.
    pub cache_ttl: u64,
}

impl SubstrateIngress {
    /// How actors are reached where only the backend is configured.
    pub fn new(target: String) -> (r: Self)
        ensures
            r.target == target,
            r.target_port == DEFAULT_TARGET_PORT,
            r.cache_ttl == DEFAULT_CACHE_TTL_NANOS,
    {
        SubstrateIngress {
            target,
            target_port: DEFAULT_TARGET_PORT,
            cache_ttl: DEFAULT_CACHE_TTL_NANOS,
        }
    }
}

/// Why an actor could not be resumed.
#[derive(Debug)]
pub enum ResumeError {
    /// The control plane answered with a status and a message.
    Status(GrpcCode, String),
    /// The control plane answered with something that cannot be used.
    InvalidResponse(String),
}

/// What a client is told when an actor could not be resumed.
pub open spec fn resume_failure(error: ResumeError, actor: Seq<char>) -> (u16, Seq<char>) {
    let name = debug_quoted(actor);
    match error {
        ResumeError::Status(GrpcCode::NotFound, _) => (404, "actor "@ + name + " not found"@),
        ResumeError::Status(GrpcCode::FailedPrecondition, message) => (
            503,
            "actor "@ + name + " unavailable: "@ + message@,
        ),
        ResumeError::Status(GrpcCode::Unavailable, _) => (503, "actor "@ + name + " unavailable"@),
        ResumeError::Status(GrpcCode::DeadlineExceeded, _) => (
            504,
            "actor "@ + name + " request timed out"@,
        ),
        ResumeError::Status(GrpcCode::PermissionDenied, _) => (
            403,
            "actor "@ + name + " access denied"@,
        ),
        ResumeError::Status(GrpcCode::Unauthenticated, _) => (
            401,
            "actor "@ + name + " authentication required"@,
        ),
        ResumeError::Status(GrpcCode::ResourceExhausted, _) => (
            429,
            "actor "@ + name + " rate limited"@,
        ),
        _ => (500, "error resuming actor "@ + name),
    }
}

fn about_actor(before: &str, actor: &ActorRef, after: &str) -> (r: String)
    ensures
        r@ == before@ + debug_quoted(actor.name@) + after@,
{
    let mut text = before.to_owned();
    let name = debug_quote(actor.name.as_str());
    text.append(name.as_str());
    text.append(after);
    text
}

/// The text of an error.
pub open spec fn resume_error_text(error: ResumeError) -> Seq<char> {
    match error {
        ResumeError::Status(code, message) => code_text(code) + ": "@ + message@,
        ResumeError::InvalidResponse(message) => message@,
    }
}

impl ResumeError {
    /// The text of this error.
    pub fn message(&self) -> (r: String)
        ensures
            r@ == resume_error_text(*self),
    {
        match self {
            ResumeError::Status(code, message) => {
                let mut text = code.name().to_owned();
                text.append(": ");
                text.append(message.as_str());
                text
            },
            ResumeError::InvalidResponse(message) => message.clone(),
        }
    }

    /// What the client is told.
    pub fn into_proxy_error(self, actor: &ActorRef) -> (r: SubstrateError)
        ensures
            r matches SubstrateError::IngressFailed { status, body } && status == resume_failure(
                self,
                actor.name@,
            ).0 && body@ == resume_failure(self, actor.name@).1,
    {
        let (status, body): (u16, String) = match self {
            ResumeError::Status(GrpcCode::NotFound, _) => (
                404,
                about_actor("actor ", actor, " not found"),
            ),
            ResumeError::Status(GrpcCode::FailedPrecondition, message) => (
                503,
                about_actor("actor ", actor, " unavailable: ").concat(message.as_str()),
            ),
            ResumeError::Status(GrpcCode::Unavailable, _) => (
                503,
                about_actor("actor ", actor, " unavailable"),
            ),
            ResumeError::Status(GrpcCode::DeadlineExceeded, _) => (
                504,
                about_actor("actor ", actor, " request timed out"),
            ),
            ResumeError::Status(GrpcCode::PermissionDenied, _) => (
                403,
                about_actor("actor ", actor, " access denied"),
            ),
            ResumeError::Status(GrpcCode::Unauthenticated, _) => (
                401,
                about_actor("actor ", actor, " authentication required"),
            ),
            ResumeError::Status(GrpcCode::ResourceExhausted, _) => (
                429,
                about_actor("actor ", actor, " rate limited"),
            ),
            _ => {
                let name = debug_quote(actor.name.as_str());
                (500, "error resuming actor ".to_owned().concat(name.as_str()))
            },
        };
        SubstrateError::IngressFailed { status, body }
    }
}

/// Where an actor runs, as far as is known.
#[derive(Debug)]
pub struct CachedAssignment {
    /// The socket address of the worker.
    pub target: String,
    /// Until when this may be reused, in nanoseconds on a clock that does not go back.
    pub expires_at: u64,
    /// Which assignment this is: no two have the same number.
    pub generation: u64,
}

/// Where an assignment was found.
#[derive(Debug, Clone, Copy, PartialEq, Eq, Structural)]
pub enum ResolutionSource {
    /// Earlier in the same request.
    Request,
    /// In the cache.
    Cache,
    /// With the control plane.
    AteApi,
}

/// The name of a source.
pub open spec fn source_name(source: ResolutionSource) -> Seq<char> {
    match source {
        ResolutionSource::Request => "request"@,
        ResolutionSource::Cache => "cache"@,
        ResolutionSource::AteApi => "ateApi"@,
    }
}

impl ResolutionSource {
    /// The name of this source.
    pub fn name(self) -> (r: &'static str)
        ensures
            r@ == source_name(self),
    {
        match self {
            ResolutionSource::Request => "request",
            ResolutionSource::Cache => "cache",
            ResolutionSource::AteApi => "ateApi",
        }
    }

    /// Whether the control plane was not asked.
    pub fn cached(self) -> (r: bool)
        ensures
            r == (self != ResolutionSource::AteApi),
    {
        match self {
            ResolutionSource::AteApi => false,
            _ => true,
        }
    }
}

/// An assignment and where it was found, or an error and where it was found.
pub type ResolutionResult = Result<
    (CachedAssignment, ResolutionSource),
    (ResumeError, ResolutionSource),
>;

/// What the control plane answers: the actor, if it says which, with the address of the worker,
/// if it has one.
#[derive(Debug)]
pub struct ResumeResponse {
    pub actor: Option<ResumedActor>,
}

/// An actor that was resumed.
#[derive(Debug)]
pub struct ResumedActor {
    pub worker_pod_ip: Option<String>,
}

/// What follows an attempt to resume an actor.
#[derive(Debug)]
pub enum ResumeStep {
    /// The actor runs on the worker with this address.
    Assigned(String),
    /// Another attempt is made after a while, given in nanoseconds.
    Retry { delay_nanos: u64 },
    /// The actor was not resumed.
    Fail(ResumeError),
}

/// How long is waited after an attempt, in nanoseconds: half as long again after each one.
pub open spec fn retry_delay(attempt: nat) -> nat
    decreases attempt,
{
    if attempt == 0 {
        FIRST_RETRY_DELAY_NANOS as nat
    } else {
        retry_delay((attempt - 1) as nat) * 3 / 2
    }
}

/// How long is waited after an attempt, computed.
pub fn retry_delay_nanos(attempt: u32) -> (r: u64)
    requires
        attempt < RESUME_ATTEMPTS,
    ensures
        r == retry_delay(attempt as nat),
{
    let mut delay: u64 = FIRST_RETRY_DELAY_NANOS;
    let mut i: u32 = 0;
    while i < attempt
        invariant
            i <= attempt < RESUME_ATTEMPTS,
            delay == retry_delay(i as nat),
            i == 0 ==> delay <= 200_000_000,
            i == 1 ==> delay <= 300_000_000,
            i == 2 ==> delay <= 450_000_000,
            i == 3 ==> delay <= 675_000_000,
            i == 4 ==> delay <= 1_012_500_000,
            i == 5 ==> delay <= 1_518_750_000,
        decreases attempt - i,
    {
        delay = delay * 3 / 2;
        i += 1;
    }
    delay
}

/// What the control plane answers to an attempt to resume an actor.
pub type ResumeAnswer = Result<ResumeResponse, (GrpcCode, String)>;

/// Whether an attempt was aborted.
pub open spec fn was_aborted(answer: ResumeAnswer) -> bool {
    answer matches Err((code, _)) && code == GrpcCode::Aborted
}

/// Whether `step` is what follows an attempt, counted from zero: one that was aborted is
/// repeated, but for the last one.
pub open spec fn follows_attempt(attempt: int, answer: ResumeAnswer, step: ResumeStep) -> bool {
    match answer {
        Ok(response) => match response.actor {
            None => step matches ResumeStep::Fail(ResumeError::InvalidResponse(text)) && text@
                == "ResumeActor response did not include an actor"@,
            Some(actor) => match actor.worker_pod_ip {
                None => step matches ResumeStep::Fail(ResumeError::InvalidResponse(text)) && text@
                    == "ResumeActor response did not include a worker assignment"@,
                Some(ip) => step == ResumeStep::Assigned(ip),
            },
        },
        Err((code, message)) => if code == GrpcCode::Aborted && attempt + 1 < RESUME_ATTEMPTS {
            step matches ResumeStep::Retry { delay_nanos } && delay_nanos == retry_delay(
                attempt as nat,
            )
        } else {
            step == ResumeStep::Fail(ResumeError::Status(code, message))
        },
    }
}

/// What follows an attempt to resume an actor. An attempt that was aborted is repeated, but for
/// the last one.
pub fn resume_step(attempt: u32, outcome: ResumeAnswer) -> (r: ResumeStep)
    requires
        attempt < RESUME_ATTEMPTS,
    ensures
        follows_attempt(attempt as int, outcome, r),
{
    match outcome {
        Ok(response) => match response.actor {
            None => ResumeStep::Fail(
                ResumeError::InvalidResponse(
                    "ResumeActor response did not include an actor".to_owned(),
                ),
            ),
            Some(actor) => match actor.worker_pod_ip {
                None => ResumeStep::Fail(
                    ResumeError::InvalidResponse(
                        "ResumeActor response did not include a worker assignment".to_owned(),
                    ),
                ),
                Some(ip) => ResumeStep::Assigned(ip),
            },
        },
        Err((code, message)) => {
            if code == GrpcCode::Aborted && attempt + 1 < RESUME_ATTEMPTS {
                ResumeStep::Retry { delay_nanos: retry_delay_nanos(attempt) }
            } else {
                ResumeStep::Fail(ResumeError::Status(code, message))
            }
        },
    }
}

/// How often an actor is tried to be resumed: until an attempt is not aborted, and at most
/// [`RESUME_ATTEMPTS`] times. `steps` follow the answers one by one, as long as each says to try
/// again.
pub proof fn law_resume_attempts(answers: Seq<ResumeAnswer>, steps: Seq<ResumeStep>)
    requires
        answers.len() >= 1,
        steps.len() == answers.len(),
        forall|i: int|
            0 <= i < steps.len() ==> follows_attempt(i, answers[i], #[trigger] steps[i]),
        forall|i: int| 0 <= i < steps.len() - 1 ==> #[trigger] steps[i] is Retry,
    ensures
        answers.len() <= RESUME_ATTEMPTS <= 7,
        forall|i: int| 0 <= i < answers.len() - 1 ==> was_aborted(#[trigger] answers[i]),
        steps.last() is Retry <==> was_aborted(answers.last()) && answers.len() < RESUME_ATTEMPTS,
        was_aborted(answers.last()) && answers.len() == RESUME_ATTEMPTS ==> (
        steps.last() matches ResumeStep::Fail(ResumeError::Status(code, _)) && code
            == GrpcCode::Aborted),
{
    let n = answers.len() as int;
    assert(follows_attempt(n - 1, answers[n - 1], steps[n - 1]));
    if n > RESUME_ATTEMPTS {
        let i = RESUME_ATTEMPTS - 1;
        assert(steps[i] is Retry);
        assert(follows_attempt(i, answers[i], steps[i]));
    }
    assert forall|i: int| 0 <= i < n - 1 implies was_aborted(#[trigger] answers[i]) by {
        assert(steps[i] is Retry);
        assert(follows_attempt(i, answers[i], steps[i]));
    }
}

/// The error for an address of a worker that is none.
pub fn invalid_worker_ip(worker_pod_ip: &str, error: &str) -> (r: ResumeError)
    ensures
        r matches ResumeError::InvalidResponse(text) && text@
            == "invalid worker_assignment.worker_pod_ip "@ + debug_quoted(worker_pod_ip@) + ": "@
            + error@,
{
    let mut text = "invalid worker_assignment.worker_pod_ip ".to_owned();
    let ip = debug_quote(worker_pod_ip);
    text.append(ip.as_str());
    text.append(": ");
    text.append(error);
    ResumeError::InvalidResponse(text)
}

/// The error for resuming that took too long.
pub fn resume_timed_out() -> (r: ResumeError)
    ensures
        r matches ResumeError::Status(code, text) && code == GrpcCode::DeadlineExceeded && text@
            == "ResumeActor timed out after 15s"@,
{
    ResumeError::Status(
        GrpcCode::DeadlineExceeded,
        "ResumeActor timed out after 15s".to_owned(),
    )
}

/// What the cache holds of an actor: where it runs, or why it could not be resumed.
pub type CacheEntry = Result<CachedAssignment, ResumeError>;

/// What is done with what the cache holds.
#[derive(Debug)]
pub enum CacheStep {
    /// It is the result.
    Return(ResolutionResult),
    /// It has expired: that assignment is removed, and the cache is looked at again.
    RemoveAndRetry { generation: u64 },
    /// It is an error, and the result: errors are removed.
    RemoveErrorsAndReturn(ResolutionResult),
}

/// What is done at the time `now` with what the cache holds.
pub open spec fn step_on_cached(entry: CacheEntry, now: u64) -> CacheStep {
    match entry {
        Ok(cached) => if cached.expires_at > now {
            CacheStep::Return(Ok((cached, ResolutionSource::Cache)))
        } else {
            CacheStep::RemoveAndRetry { generation: cached.generation }
        },
        Err(e) => CacheStep::RemoveErrorsAndReturn(Err((e, ResolutionSource::Cache))),
    }
}

/// What is done at the time `now` with what the cache holds.
pub fn cache_step(entry: CacheEntry, now: u64) -> (r: CacheStep)
    ensures
        r == step_on_cached(entry, now),
{
    match entry {
        Ok(cached) => {
            if cached.expires_at > now {
                CacheStep::Return(Ok((cached, ResolutionSource::Cache)))
            } else {
                CacheStep::RemoveAndRetry { generation: cached.generation }
            }
        },
        Err(e) => CacheStep::RemoveErrorsAndReturn(Err((e, ResolutionSource::Cache))),
    }
}

/// Whether an entry of the cache is the assignment `generation`.
pub open spec fn has_generation(entry: CacheEntry, generation: u64) -> bool {
    entry matches Ok(cached) && cached.generation == generation
}

/// Whether an entry of the cache is the assignment `generation`, which is the only one that is
/// removed when that assignment has expired or is stale.
pub fn is_generation(entry: &CacheEntry, generation: u64) -> (r: bool)
    ensures
        r == has_generation(*entry, generation),
{
    match entry {
        Ok(cached) => cached.generation == generation,
        Err(_) => false,
    }
}

/// What the cache is to hold of an actor for which the control plane was asked, at the time `now`.
pub open spec fn entry_made(
    resumed: Result<String, ResumeError>,
    now: u64,
    cache_ttl: u64,
    generation: u64,
) -> CacheEntry {
    match resumed {
        Ok(target) => Ok(
            CachedAssignment { target, expires_at: (now + cache_ttl) as u64, generation },
        ),
        Err(e) => Err(e),
    }
}

/// What the cache is to hold of an actor for which the control plane was asked, at the time `now`.
pub fn new_entry(resumed: Result<String, ResumeError>, now: u64, cache_ttl: u64, generation: u64)
    -> (r: CacheEntry)
    requires
        now + cache_ttl <= u64::MAX,
    ensures
        r == entry_made(resumed, now, cache_ttl, generation),
{
    match resumed {
        Ok(target) => Ok(CachedAssignment { target, expires_at: now + cache_ttl, generation }),
        Err(e) => Err(e),
    }
}

/// The result where the control plane was asked.
pub open spec fn asked(entry: CacheEntry) -> ResolutionResult {
    match entry {
        Ok(assignment) => Ok((assignment, ResolutionSource::AteApi)),
        Err(error) => Err((error, ResolutionSource::AteApi)),
    }
}

/// The result where the control plane was asked.
pub fn resolution(entry: CacheEntry) -> (r: ResolutionResult)
    ensures
        r == asked(entry),
{
    match entry {
        Ok(assignment) => Ok((assignment, ResolutionSource::AteApi)),
        Err(error) => Err((error, ResolutionSource::AteApi)),
    }
}

/// A second copy of an entry of the cache.
pub fn clone_entry(entry: &CacheEntry) -> (r: CacheEntry)
    ensures
        r == *entry,
{
    match entry {
        Ok(cached) => Ok(
            CachedAssignment {
                target: cached.target.clone(),
                expires_at: cached.expires_at,
                generation: cached.generation,
            },
        ),
        Err(ResumeError::Status(code, message)) => Err(ResumeError::Status(*code, message.clone())),
        Err(ResumeError::InvalidResponse(message)) => Err(
            ResumeError::InvalidResponse(message.clone()),
        ),
    }
}

/// What is removed from the cache right after an entry was put there.
#[derive(Debug, Clone, Copy, PartialEq, Eq, Structural)]
pub enum CacheCleanup {
    /// Nothing.
    Keep,
    /// Errors: they are not reused.
    RemoveErrors,
    /// That assignment: assignments are not reused.
    RemoveGeneration(u64),
}

/// What is removed from the cache right after an entry was put there: an error always, and an
/// assignment where it has no time to live.
pub open spec fn cleanup(entry: CacheEntry, cache_ttl: u64) -> CacheCleanup {
    match entry {
        Err(_) => CacheCleanup::RemoveErrors,
        Ok(cached) => if cache_ttl == 0 {
            CacheCleanup::RemoveGeneration(cached.generation)
        } else {
            CacheCleanup::Keep
        },
    }
}

/// What is removed from the cache right after an entry was put there.
pub fn cleanup_after_insert(entry: &CacheEntry, cache_ttl: u64) -> (r:
    CacheCleanup)
    ensures
        r == cleanup(*entry, cache_ttl),
{
    match entry {
        Err(_) => CacheCleanup::RemoveErrors,
        Ok(cached) => {
            if cache_ttl == 0 {
                CacheCleanup::RemoveGeneration(cached.generation)
            } else {
                CacheCleanup::Keep
            }
        },
    }
}

/// An entry that was made at one time and is looked at later is the result exactly as long as less
/// than its time to live has passed; after that it is removed, and no other entry is.
pub proof fn law_assignments_live_for_their_ttl(
    target: String,
    made: u64,
    ttl: u64,
    generation: u64,
    now: u64,
)
    requires
        made + ttl <= u64::MAX,
        made <= now,
    ensures
        ({
            let entry: CacheEntry = Ok(
                CachedAssignment { target, expires_at: (made + ttl) as u64, generation },
            );
            &&& (entry->Ok_0.expires_at > now) == (now - made < ttl)
            &&& has_generation(entry, generation)
            &&& forall|g: u64| has_generation(entry, g) ==> g == generation
        }),
{
}

/// Removing an assignment that was replaced leaves the one that replaced it.
pub proof fn law_newer_assignments_stay(stale: CachedAssignment, fresh: CachedAssignment)
    requires
        stale.generation != fresh.generation,
    ensures
        has_generation(Ok(stale), stale.generation),
        !has_generation(Ok(fresh), stale.generation),
{
}

/// With no time to live nothing is reused: an entry is removed right after it was made, whatever
/// it is.
pub proof fn law_no_ttl_no_reuse(entry: CacheEntry)
    ensures
        cleanup(entry, 0) != CacheCleanup::Keep,
{
}

/// What a cleanup leaves of an entry.
pub open spec fn kept_by(done: CacheCleanup, entry: CacheEntry) -> Option<CacheEntry> {
    match done {
        CacheCleanup::Keep => Some(entry),
        CacheCleanup::RemoveErrors => if entry is Err {
            None
        } else {
            Some(entry)
        },
        CacheCleanup::RemoveGeneration(generation) => if has_generation(entry, generation) {
            None
        } else {
            Some(entry)
        },
    }
}

/// A lookup of an actor: when the cache is looked at, what the control plane answers if it is
/// asked, when it has answered, and the number of the assignment.
pub ghost struct Lookup {
    pub started: u64,
    pub resumed: Result<String, ResumeError>,
    pub made: u64,
    pub generation: u64,
}

/// What a lookup gives where the control plane is asked, and what the cache holds of the actor
/// afterwards.
pub open spec fn lookup_asks(cache_ttl: u64, lookup: Lookup) -> (
    Option<CacheEntry>,
    ResolutionResult,
) {
    let entry = entry_made(lookup.resumed, lookup.made, cache_ttl, lookup.generation);
    (kept_by(cleanup(entry, cache_ttl), entry), asked(entry))
}

/// What a lookup gives where the cache holds `slot` of the actor, and what it holds afterwards.
/// An assignment that has expired is removed, and the control plane is asked.
pub open spec fn looked_up(slot: Option<CacheEntry>, cache_ttl: u64, lookup: Lookup) -> (
    Option<CacheEntry>,
    ResolutionResult,
) {
    match slot {
        None => lookup_asks(cache_ttl, lookup),
        Some(entry) => match step_on_cached(entry, lookup.started) {
            CacheStep::Return(result) => (slot, result),
            CacheStep::RemoveAndRetry { .. } => lookup_asks(cache_ttl, lookup),
            CacheStep::RemoveErrorsAndReturn(result) => (
                kept_by(CacheCleanup::RemoveErrors, entry),
                result,
            ),
        },
    }
}

/// Of two lookups of one actor, one after the other, the second reuses what the first one found
/// as long as that lives, without asking the control plane; otherwise, and after an error, it
/// asks. What the control plane was asked for lives for the time to live, so with none it is not
/// reused.
pub proof fn law_second_lookup_reuses_the_first(
    slot: Option<CacheEntry>,
    cache_ttl: u64,
    first: Lookup,
    second: Lookup,
)
    requires
        first.made + cache_ttl <= u64::MAX,
        first.made <= second.started,
    ensures
        ({
            let (held, found) = looked_up(slot, cache_ttl, first);
            let again = looked_up(held, cache_ttl, second);
            match found {
                Ok((assignment, source)) => {
                    &&& source == ResolutionSource::AteApi ==> assignment.expires_at == first.made
                        + cache_ttl
                    &&& if second.started < assignment.expires_at {
                        again == (held, ResolutionResult::Ok((assignment, ResolutionSource::Cache)))
                    } else {
                        again == lookup_asks(cache_ttl, second)
                    }
                },
                Err(_) => again == lookup_asks(cache_ttl, second),
            }
        }),
{
}

/// A lookup that asks the control plane says so, and gives what it answered.
pub proof fn law_asking_is_reported(cache_ttl: u64, lookup: Lookup)
    requires
        lookup.made + cache_ttl <= u64::MAX,
    ensures
        match lookup.resumed {
            Ok(target) => lookup_asks(cache_ttl, lookup).1 matches Ok((assignment, source))
                && assignment.target == target && source == ResolutionSource::AteApi,
            Err(error) => lookup_asks(cache_ttl, lookup).1 == ResolutionResult::Err(
                (error, ResolutionSource::AteApi),
            ),
        },
{
}

/// The report of a resolution: what was looked up, where it was found, and what came of it.
pub open spec fn resolution_report(
    actor: Seq<char>,
    atespace: Seq<char>,
    source: ResolutionSource,
    key: Seq<char>,
    result: Seq<char>,
) -> JsonView {
    JsonView::Object(
        Map::empty().insert("operation"@, JsonView::Str("resumeActor"@)).insert(
            "actor"@,
            JsonView::Str(actor),
        ).insert("atespace"@, JsonView::Str(atespace)).insert(
            "source"@,
            JsonView::Str(source_name(source)),
        ).insert("cached"@, JsonView::Bool(source != ResolutionSource::AteApi)).insert(
            "lookedUp"@,
            JsonView::Bool(source == ResolutionSource::AteApi),
        ).insert(key, JsonView::Str(result)),
    )
}

fn report(actor: &ActorRef, source: ResolutionSource, key: &str, result: &str) -> (r: Json)
    ensures
        r@ == resolution_report(actor.name@, actor.atespace@, source, key@, result@),
{
    let mut members: Vec<(String, Json)> = Vec::new();
    put_member(&mut members, "operation", Json::Str("resumeActor".to_owned()));
    put_member(&mut members, "actor", Json::Str(actor.name.clone()));
    put_member(&mut members, "atespace", Json::Str(actor.atespace.clone()));
    put_member(&mut members, "source", Json::Str(source.name().to_owned()));
    put_member(&mut members, "cached", Json::Bool(source.cached()));
    put_member(&mut members, "lookedUp", Json::Bool(!source.cached()));
    put_member(&mut members, key, Json::Str(result.to_owned()));
    Json::Object(members)
}

/// A request to an actor.
#[derive(Debug)]
pub struct SubstrateRequestState {
    pub actor: ActorRef,
    /// Where the actor runs, once that has been found.
    pub current: Option<CachedAssignment>,
}

impl SubstrateRequestState {
    /// A request to an actor whose place is not known.
    pub fn new(actor: ActorRef) -> (r: Self)
        ensures
            r.actor == actor,
            r.current is None,
    {
        SubstrateRequestState { actor, current: None }
    }

    /// Where the request goes, where that is known, with the report of it. Nothing is looked up
    /// twice for a request.
    pub fn current_target(&self) -> (r: Option<(String, Json)>)
        ensures
            match self.current {
                Some(current) => r matches Some(found) && found.0 == current.target && found.1@
                    == resolution_report(
                    self.actor.name@,
                    self.actor.atespace@,
                    ResolutionSource::Request,
                    "target"@,
                    current.target@,
                ),
                None => r is None,
            },
    {
        match &self.current {
            Some(current) => {
                let details = report(
                    &self.actor,
                    ResolutionSource::Request,
                    "target",
                    current.target.as_str(),
                );
                Some((current.target.clone(), details))
            },
            None => None,
        }
    }

    /// Takes in what a lookup gave: the place of the actor, which is then kept, or what the client
    /// is told. The report comes with either.
    pub fn resolve_target(&mut self, result: ResolutionResult) -> (r: (
        Result<String, SubstrateError>,
        Json,
    ))
        ensures
            final(self).actor == old(self).actor,
            final(self).current == place_after(old(self).current, result),
            match result {
                Ok((assignment, source)) => r.0 == Ok::<String, SubstrateError>(assignment.target)
                    && final(self).current == Some(assignment) && r.1@ == resolution_report(
                    old(self).actor.name@,
                    old(self).actor.atespace@,
                    source,
                    "target"@,
                    assignment.target@,
                ),
                Err((error, source)) => (r.0 matches Err(
                    SubstrateError::IngressFailed { status, body },
                ) && status == resume_failure(error, old(self).actor.name@).0 && body@
                    == resume_failure(error, old(self).actor.name@).1) && final(self).current
                    == old(self).current && r.1@ == resolution_report(
                    old(self).actor.name@,
                    old(self).actor.atespace@,
                    source,
                    "error"@,
                    resume_error_text(error),
                ),
            },
    {
        match result {
            Ok((assignment, source)) => {
                let target = assignment.target.clone();
                let details = report(&self.actor, source, "target", target.as_str());
                self.current = Some(assignment);
                (Ok(target), details)
            },
            Err((error, source)) => {
                let text = error.message();
                let details = report(&self.actor, source, "error", text.as_str());
                (Err(error.into_proxy_error(&self.actor)), details)
            },
        }
    }

    /// Forgets where the actor runs. Gives the assignment that is to be removed from the cache, if
    /// there is one.
    pub fn evict(&mut self) -> (r: Option<u64>)
        ensures
            final(self).current is None,
            final(self).actor == old(self).actor,
            r == match old(self).current {
                Some(current) => Some(current.generation),
                None => None,
            },
    {
        match self.current.take() {
            Some(current) => Some(current.generation),
            None => None,
        }
    }
}

/// Whether a response says that the actor has moved: its status is 421, and the header
/// [`STALE_ASSIGNMENT_HEADER`], of which `header` is the first value, is `true`.
pub fn is_stale_assignment(status: u16, header: Option<&[u8]>) -> (r: bool)
    ensures
        r == (status == 421 && (header matches Some(value) && value@ == seq![
            0x74u8,
            0x72u8,
            0x75u8,
            0x65u8,
        ])),
        r == is_stale(
            status,
            match header {
                Some(value) => Some(value@),
                None => None,
            },
        ),
{
    proof {
        reveal_strlit("true");
        assert("true"@.map_values(|c: char| c as u8) =~= seq![0x74u8, 0x72u8, 0x75u8, 0x65u8]);
    }
    if status != 421 {
        return false;
    }
    match header {
        Some(value) => {
            if value.len() == 4 && value[0] == 0x74 && value[1] == 0x72 && value[2] == 0x75
                && value[3] == 0x65 {
                assert(value@ =~= seq![0x74u8, 0x72u8, 0x75u8, 0x65u8]);
                true
            } else {
                false
            }
        },
        None => false,
    }
}

/// The authority of a tunnel, given the values of its `host` header: there must be exactly one,
/// and it must be a text.
pub fn connect_authority(values: &Vec<Vec<u8>>) -> (r: Option<String>)
    ensures
        match r {
            Some(text) => values@.len() == 1 && (forall|i: int|
                0 <= i < values@[0]@.len() ==> is_header_text_byte(#[trigger] values@[0]@[i]))
                && text@ == values@[0]@.map_values(|b: u8| b as char),
            None => values@.len() != 1 || exists|i: int|
                0 <= i < values@[0]@.len() && !is_header_text_byte(#[trigger] values@[0]@[i]),
        },
{
    if values.len() != 1 {
        return None;
    }
    header_text(values[0].as_slice())
}

/// Whether a text has no dot.
pub open spec fn no_dot(s: Seq<char>) -> bool {
    forall|i: int| 0 <= i < s.len() ==> s[i] != '.'
}

/// The host name of an actor.
pub open spec fn actor_host(name: Seq<char>, atespace: Seq<char>) -> Seq<char> {
    name + seq!['.'] + atespace + ACTOR_DNS_SUFFIX@
}

/// Whether a host is that of an actor: a name, a dot, a space, and the domain of actors, with no
/// other dots.
pub open spec fn is_actor_host(host: Seq<char>, name: Seq<char>, atespace: Seq<char>) -> bool {
    no_dot(name) && no_dot(atespace) && host == actor_host(name, atespace)
}

/// A host is that of one actor at most.
pub proof fn law_actor_hosts_are_unambiguous(
    host: Seq<char>,
    n1: Seq<char>,
    s1: Seq<char>,
    n2: Seq<char>,
    s2: Seq<char>,
)
    requires
        is_actor_host(host, n1, s1),
        is_actor_host(host, n2, s2),
    ensures
        n1 == n2,
        s1 == s2,
{
    assert(host[n1.len() as int] == '.');
    assert(host[n2.len() as int] == '.');
    if n1.len() < n2.len() {
        assert(host[n1.len() as int] == n2[n1.len() as int]);
    }
    if n2.len() < n1.len() {
        assert(host[n2.len() as int] == n1[n2.len() as int]);
    }
    assert(n1 =~= n2) by {
        assert forall|i: int| 0 <= i < n1.len() implies n1[i] == n2[i] by {
            assert(host[i] == n1[i]);
            assert(host[i] == n2[i]);
        }
    }
    assert(host.len() == n1.len() + 1 + s1.len() + ACTOR_DNS_SUFFIX@.len());
    assert(host.len() == n2.len() + 1 + s2.len() + ACTOR_DNS_SUFFIX@.len());
    assert(s1 =~= s2) by {
        assert forall|i: int| 0 <= i < s1.len() implies s1[i] == s2[i] by {
            assert(host[n1.len() + 1 + i] == s1[i]);
            assert(host[n1.len() + 1 + i] == s2[i]);
        }
    }
}

/// Whether a host is that of an actor.
pub open spec fn names_an_actor(host: Seq<char>) -> bool {
    exists|name: Seq<char>, atespace: Seq<char>| #[trigger] is_actor_host(host, name, atespace)
}

/// The actor that a host stands for.
pub fn actor_from_host(host: &str) -> (r: Option<ActorRef>)
    ensures
        match r {
            Some(actor) => is_actor_host(host@, actor.name@, actor.atespace@),
            None => !names_an_actor(host@),
        },
{
    let chars = chars_of(host);
    let suffix = chars_of(ACTOR_DNS_SUFFIX);
    if !has_suffix(&chars, &suffix) {
        assert forall|name: Seq<char>, atespace: Seq<char>| !#[trigger] is_actor_host(
            host@,
            name,
            atespace,
        ) by {
            if is_actor_host(host@, name, atespace) {
                assert(host@.skip(host@.len() - suffix@.len()) =~= suffix@);
            }
        }
        return None;
    }
    let end: usize = chars.len() - suffix.len();
    let ghost prefix = host@.take(end as int);
    assert(host@ =~= prefix + suffix@);
    let dot = match find_char(&chars, '.', 0, end) {
        Some(dot) => dot,
        None => {
            assert forall|name: Seq<char>, atespace: Seq<char>| !#[trigger] is_actor_host(
                host@,
                name,
                atespace,
            ) by {
                if is_actor_host(host@, name, atespace) {
                    assert(name.len() + 1 + atespace.len() == end);
                    assert(host@[name.len() as int] == '.');
                }
            }
            return None;
        },
    };
    if let Some(second) = find_char(&chars, '.', dot + 1, end) {
        assert forall|name: Seq<char>, atespace: Seq<char>| !#[trigger] is_actor_host(
            host@,
            name,
            atespace,
        ) by {
            if is_actor_host(host@, name, atespace) {
                assert(name.len() + 1 + atespace.len() == end);
                assert(host@[name.len() as int] == '.');
                if dot < name.len() {
                    assert(host@[dot as int] == name[dot as int]);
                }
                if dot > name.len() {
                    assert(host@[dot as int] == atespace[dot - name.len() - 1]);
                }
                assert(host@[second as int] == atespace[second - name.len() - 1]);
            }
        }
        return None;
    }
    let name = string_of(&chars, 0, dot);
    let atespace = string_of(&chars, dot + 1, end);
    assert(host@ =~= actor_host(name@, atespace@));
    Some(ActorRef { atespace, name })
}

/// The host of an authority without a dot at its end.
pub open spec fn bare_host(host: Seq<char>) -> Seq<char> {
    if host.len() > 0 && host.last() == '.' {
        host.drop_last()
    } else {
        host
    }
}

/// The host that a request to an actor names, or what the client is told about its authority.
pub fn actor_request_host(authority: &str) -> (r: Result<String, SubstrateError>)
    ensures
        match authority_host(authority@) {
            Ok(host) => r matches Ok(h) && h@ == bare_host(host),
            Err(e) => r matches Err(SubstrateError::IngressFailed { status, body }) && status == 404
                && body@ == "invalid actor authority "@ + debug_quoted(authority@) + ": "@ + e,
        },
{
    match parse_authority(authority) {
        Ok(host) => {
            let chars = chars_of(host.as_str());
            let mut end: usize = chars.len();
            if end > 0 && chars[end - 1] == '.' {
                end = end - 1;
            }
            let r = string_of(&chars, 0, end);
            assert(r@ =~= bare_host(host@));
            Ok(r)
        },
        Err(e) => {
            let mut body = "invalid actor authority ".to_owned();
            let shown = debug_quote(authority);
            body.append(shown.as_str());
            body.append(": ");
            body.append(e.as_str());
            Err(SubstrateError::IngressFailed { status: 404, body })
        },
    }
}

/// What the client is told about a host that is not that of an actor.
pub open spec fn is_invalid_host(error: SubstrateError, host: Seq<char>) -> bool {
    error matches SubstrateError::IngressFailed { status, body } && status == 404 && body@
        == "invalid host "@ + debug_quoted(host) + ": expected <actor>.<atespace>"@
        + ACTOR_DNS_SUFFIX@
}

/// What the client is told about a host that is not that of an actor.
pub fn invalid_host(host: &str) -> (r: SubstrateError)
    ensures
        is_invalid_host(r, host@),
{
    let mut body = "invalid host ".to_owned();
    let shown = debug_quote(host);
    body.append(shown.as_str());
    body.append(": expected <actor>.<atespace>");
    body.append(ACTOR_DNS_SUFFIX);
    SubstrateError::IngressFailed { status: 404, body }
}

/// The host that a request names, and the actor that it stands for.
#[derive(Debug)]
pub struct RequestedActor {
    pub host: String,
    pub actor: ActorRef,
}

/// The host of a request itself, if it has one.
pub open spec fn own_host(own: Option<&str>) -> Option<Seq<char>> {
    match own {
        Some(host) => Some(host@),
        None => None,
    }
}

/// The authority that names the actor of a request: that of the tunnel that the request came
/// through, or that of the request itself; an empty one where it has none.
pub open spec fn request_authority(connect_hosts: Seq<Vec<u8>>, own: Option<Seq<char>>) -> Seq<
    char,
> {
    if connect_hosts.len() == 1 && forall|i: int|
        0 <= i < connect_hosts[0]@.len() ==> is_header_text_byte(#[trigger] connect_hosts[0]@[i]) {
        connect_hosts[0]@.map_values(|b: u8| b as char)
    } else {
        match own {
            Some(host) => host,
            None => Seq::empty(),
        }
    }
}

/// Finds out which actor a request goes to. `connect_hosts` are the values of the `host` header of
/// the tunnel that it came through, and `own` is the host of the request itself.
pub fn requested_actor(connect_hosts: &Vec<Vec<u8>>, own: Option<&str>) -> (r: Result<
    RequestedActor,
    SubstrateError,
>)
    ensures
        ({
            let authority = request_authority(connect_hosts@, own_host(own));
            match authority_host(authority) {
                Err(e) => r matches Err(SubstrateError::IngressFailed { status, body }) && status
                    == 404 && body@ == "invalid actor authority "@ + debug_quoted(authority) + ": "@
                    + e,
                Ok(host) => match r {
                    Ok(requested) => requested.host@ == bare_host(host) && is_actor_host(
                        bare_host(host),
                        requested.actor.name@,
                        requested.actor.atespace@,
                    ),
                    Err(error) => is_invalid_host(error, bare_host(host)) && !names_an_actor(
                        bare_host(host),
                    ),
                },
            }
        }),
{
    let authority = match connect_authority(connect_hosts) {
        Some(authority) => authority,
        None => match own {
            Some(host) => host.to_owned(),
            None => String::new(),
        },
    };
    assert(authority@ =~= request_authority(connect_hosts@, own_host(own)));
    let host = match actor_request_host(authority.as_str()) {
        Ok(host) => host,
        Err(error) => {
            return Err(error);
        },
    };
    match actor_from_host(host.as_str()) {
        Some(actor) => Ok(RequestedActor { host, actor }),
        None => Err(invalid_host(host.as_str())),
    }
}

/// Admits the actor of a request if both parts of its name can be names of resources.
pub fn admit_actor(requested: RequestedActor, name_is_valid: bool, atespace_is_valid: bool) -> (r:
    Result<ActorRef, SubstrateError>)
    ensures
        if name_is_valid && atespace_is_valid {
            r == Ok::<ActorRef, SubstrateError>(requested.actor)
        } else {
            r matches Err(error) && is_invalid_host(error, requested.host@)
        },
        r is Ok <==> is_admitted(name_is_valid, atespace_is_valid),
{
    if name_is_valid && atespace_is_valid {
        Ok(requested.actor)
    } else {
        Err(invalid_host(requested.host.as_str()))
    }
}

/// What a client is told about an actor that could not be resumed: a status for each kind of
/// failure, and an internal error for all others.
pub proof fn law_failures_have_their_status(
    code: GrpcCode,
    message: String,
    actor: Seq<char>,
)
    ensures
        ({
            let status = resume_failure(ResumeError::Status(code, message), actor).0;
            &&& code == GrpcCode::NotFound <==> status == 404
            &&& code == GrpcCode::FailedPrecondition || code == GrpcCode::Unavailable <==> status
                == 503
            &&& code == GrpcCode::DeadlineExceeded <==> status == 504
            &&& code == GrpcCode::PermissionDenied <==> status == 403
            &&& code == GrpcCode::Unauthenticated <==> status == 401
            &&& code == GrpcCode::ResourceExhausted <==> status == 429
            &&& status == 404 || status == 503 || status == 504 || status == 403 || status == 401
                || status == 429 || status == 500
        }),
        resume_failure(ResumeError::InvalidResponse(message), actor).0 == 500,
{
}

/// A client is told what the control plane said only where it says why the actor is not available:
/// everything else depends on the kind of failure and the name of the actor alone.
pub proof fn law_messages_are_not_passed_on(
    code: GrpcCode,
    a: String,
    b: String,
    actor: Seq<char>,
)
    ensures
        code != GrpcCode::FailedPrecondition ==> resume_failure(
            ResumeError::Status(code, a),
            actor,
        ) == resume_failure(ResumeError::Status(code, b), actor),
        resume_failure(ResumeError::InvalidResponse(a), actor) == resume_failure(
            ResumeError::InvalidResponse(b),
            actor,
        ),
        resume_failure(ResumeError::Status(GrpcCode::FailedPrecondition, a), actor).1
            == resume_failure(ResumeError::Status(GrpcCode::Unavailable, a), actor).1 + ": "@ + a@,
        resume_failure(ResumeError::Status(code, a), actor).1.len() > debug_quoted(actor).len(),
{
    let name = debug_quoted(actor);
    reveal_strlit(" unavailable: ");
    reveal_strlit(" unavailable");
    reveal_strlit(": ");
    reveal_strlit("actor ");
    reveal_strlit("error resuming actor ");
    assert(" unavailable: "@ =~= " unavailable"@ + ": "@);
    assert("actor "@ + name + " unavailable: "@ + a@ =~= "actor "@ + name + " unavailable"@ + ": "@
        + a@);
}

/// Each wait is half as long again as the one before, so it grows with every attempt.
pub proof fn law_waits_grow(attempt: nat)
    ensures
        retry_delay(0) == 200_000_000,
        retry_delay(attempt + 1) == retry_delay(attempt) * 3 / 2,
        retry_delay(attempt) < retry_delay(attempt + 1),
    decreases attempt,
{
    lemma_wait_is_long(attempt);
}

proof fn lemma_wait_is_long(attempt: nat)
    ensures
        retry_delay(attempt) >= 200_000_000,
    decreases attempt,
{
    if attempt > 0 {
        lemma_wait_is_long((attempt - 1) as nat);
    }
}

/// An answer that names a worker ends the attempts, with that worker; one that names none, and an
/// error that is no abortion, end them with a failure. Which attempt it was does not matter then.
pub proof fn law_answers_end_the_attempts(attempt: int, answer: ResumeAnswer, step: ResumeStep)
    requires
        follows_attempt(attempt, answer, step),
    ensures
        answer matches Ok(response) ==> (response.actor matches Some(actor)
            && actor.worker_pod_ip is Some) ==> step == ResumeStep::Assigned(
            response.actor->0.worker_pod_ip->0,
        ),
        answer matches Ok(response) ==> response.actor is None
            || response.actor->0.worker_pod_ip is None ==> step matches ResumeStep::Fail(
            ResumeError::InvalidResponse(_),
        ),
        answer matches Err((code, message)) ==> code != GrpcCode::Aborted ==> step
            == ResumeStep::Fail(ResumeError::Status(code, message)),
        answer matches Err((code, message)) ==> code == GrpcCode::Aborted && attempt + 1
            < RESUME_ATTEMPTS ==> (step matches ResumeStep::Retry { delay_nanos } && delay_nanos
            == retry_delay(attempt as nat)),
{
}

/// What the cache holds of an actor is the result while it lives, word for word; once it has
/// expired it is removed, and that assignment alone. A failure is the result once, and is removed.
pub proof fn law_cached_results_are_used(entry: CacheEntry, now: u64)
    ensures
        entry matches Ok(cached) ==> now < cached.expires_at ==> step_on_cached(entry, now)
            == CacheStep::Return(ResolutionResult::Ok((cached, ResolutionSource::Cache))),
        entry matches Ok(cached) ==> now >= cached.expires_at ==> step_on_cached(entry, now) == (
        CacheStep::RemoveAndRetry { generation: cached.generation }),
        entry matches Err(e) ==> step_on_cached(entry, now) == CacheStep::RemoveErrorsAndReturn(
            ResolutionResult::Err((e, ResolutionSource::Cache)),
        ),
{
}

/// A new entry is what the control plane answered, under its own number, and lives for the time to
/// live; a failure is kept as it is.
pub proof fn law_entries_hold_the_answer(
    target: String,
    error: ResumeError,
    now: u64,
    cache_ttl: u64,
    generation: u64,
)
    requires
        now + cache_ttl <= u64::MAX,
    ensures
        entry_made(Ok(target), now, cache_ttl, generation) matches Ok(made) && made.target == target
            && made.generation == generation && made.expires_at == now + cache_ttl,
        entry_made(Err(error), now, cache_ttl, generation) == CacheEntry::Err(error),
{
}

/// Failures are never kept; an assignment is kept exactly if it has a time to live, and where it
/// has none it alone is removed.
pub proof fn law_failures_are_not_kept(entry: CacheEntry, cache_ttl: u64)
    ensures
        entry is Err ==> kept_by(cleanup(entry, cache_ttl), entry) is None,
        entry is Ok ==> (kept_by(cleanup(entry, cache_ttl), entry) is Some <==> cache_ttl > 0),
        entry is Ok && cache_ttl > 0 ==> kept_by(cleanup(entry, cache_ttl), entry) == Some(entry),
        entry matches Ok(cached) ==> cache_ttl == 0 ==> cleanup(entry, cache_ttl)
            == CacheCleanup::RemoveGeneration(cached.generation),
{
}

/// A report names the actor and its space, says where the assignment was found, and whether the
/// control plane was asked for it or not; the result stands under its own name.
pub proof fn law_reports_say_where_it_was_found(
    actor: Seq<char>,
    atespace: Seq<char>,
    source: ResolutionSource,
    key: Seq<char>,
    result: Seq<char>,
)
    requires
        key == "target"@ || key == "error"@,
    ensures
        ({
            let report = resolution_report(actor, atespace, source, key, result);
            &&& report.member(key) == Some(JsonView::Str(result))
            &&& report.member("actor"@) == Some(JsonView::Str(actor))
            &&& report.member("atespace"@) == Some(JsonView::Str(atespace))
            &&& report.member("source"@) == Some(JsonView::Str(source_name(source)))
            &&& report.member("operation"@) == Some(JsonView::Str("resumeActor"@))
            &&& report.member("lookedUp"@) == Some(
                JsonView::Bool(source == ResolutionSource::AteApi),
            )
            &&& report.member("cached"@) == Some(
                JsonView::Bool(
                    source == ResolutionSource::Request || source == ResolutionSource::Cache,
                ),
            )
        }),
{
    reveal_strlit("operation");
    reveal_strlit("actor");
    reveal_strlit("atespace");
    reveal_strlit("source");
    reveal_strlit("cached");
    reveal_strlit("lookedUp");
    reveal_strlit("target");
    reveal_strlit("error");
    assert("operation"@.len() == 9);
    assert("actor"@[0] == 'a');
    assert("error"@[0] == 'e');
    assert("atespace"@[0] == 'a');
    assert("lookedUp"@[0] == 'l');
    assert("source"@[0] == 's');
    assert("cached"@[0] == 'c');
    assert("target"@[0] == 't');
    assert("actor"@.len() == 5);
    assert("atespace"@.len() == 8);
}

/// A dot at the end of a host is taken off, one at most, and nothing else is.
pub proof fn law_one_dot_is_taken_off(host: Seq<char>)
    ensures
        bare_host(host.push('.')) == host,
        host.len() == 0 || host.last() != '.' ==> bare_host(host) == host,
{
    assert(host.push('.').drop_last() =~= host);
}

/// The tunnel names the actor of a request where it has one host, and that is a text; otherwise
/// the request does.
pub proof fn law_tunnels_name_the_actor(
    connect_hosts: Seq<Vec<u8>>,
    own: Seq<char>,
)
    ensures
        connect_hosts.len() == 1 && (forall|i: int|
            0 <= i < connect_hosts[0]@.len() ==> is_header_text_byte(
                #[trigger] connect_hosts[0]@[i],
            )) ==> request_authority(connect_hosts, Some(own)) == connect_hosts[0]@.map_values(
            |b: u8| b as char,
        ) && request_authority(connect_hosts, None) == request_authority(connect_hosts, Some(own)),
        connect_hosts.len() != 1 || (exists|i: int|
            0 <= i < connect_hosts[0]@.len() && !is_header_text_byte(
                #[trigger] connect_hosts[0]@[i],
            )) ==> request_authority(connect_hosts, Some(own)) == own && request_authority(
            connect_hosts,
            None,
        ).len() == 0,
{
}

/// The host of an actor is its name, a dot, its space and the domain of actors.
pub proof fn law_actor_hosts_are_put_together(name: Seq<char>, atespace: Seq<char>)
    requires
        no_dot(name),
        no_dot(atespace),
    ensures
        ({
            let host = actor_host(name, atespace);
            let dot = name.len() as int;
            let end = dot + 1 + atespace.len();
            &&& is_actor_host(host, name, atespace)
            &&& names_an_actor(host)
            &&& host.take(dot) == name
            &&& host[dot] == '.'
            &&& host.subrange(dot + 1, end) == atespace
            &&& host.skip(end) == ACTOR_DNS_SUFFIX@
        }),
{
    let host = actor_host(name, atespace);
    let dot = name.len() as int;
    let end = dot + 1 + atespace.len();
    assert(host.take(dot) =~= name);
    assert(host.subrange(dot + 1, end) =~= atespace);
    assert(host.skip(end) =~= ACTOR_DNS_SUFFIX@);
    assert(is_actor_host(host, name, atespace));
}

/// Whether a response says that the actor has moved.
pub open spec fn is_stale(status: u16, header: Option<Seq<u8>>) -> bool {
    status == 421 && (header matches Some(value) && value == "true"@.map_values(|c: char| c as u8))
}

/// An assignment is stale only where both the status and the header say so, the header by the word
/// `true` and nothing more.
pub proof fn law_stale_takes_both(status: u16, header: Option<Seq<u8>>)
    ensures
        status != 421 ==> !is_stale(status, header),
        header is None ==> !is_stale(status, header),
        header matches Some(value) ==> value.len() != 4 ==> !is_stale(status, header),
        is_stale(421, Some("true"@.map_values(|c: char| c as u8))),
{
    reveal_strlit("true");
}

/// A host with more than one dot before the domain of actors is that of no actor.
pub proof fn law_more_dots_name_no_actor(a: Seq<char>, b: Seq<char>, c: Seq<char>)
    ensures
        !names_an_actor(a + seq!['.'] + b + seq!['.'] + c + ACTOR_DNS_SUFFIX@),
{
    let host = a + seq!['.'] + b + seq!['.'] + c + ACTOR_DNS_SUFFIX@;
    assert forall|name: Seq<char>, atespace: Seq<char>| !#[trigger] is_actor_host(
        host,
        name,
        atespace,
    ) by {
        if is_actor_host(host, name, atespace) {
            let first = a.len() as int;
            let second = first + 1 + b.len();
            let dot = name.len() as int;
            assert(host.len() == dot + 1 + atespace.len() + ACTOR_DNS_SUFFIX@.len());
            assert(host[first] == '.' && host[second] == '.');
            let at = if first == dot {
                second
            } else {
                first
            };
            assert(host[at] == '.');
            if at < dot {
                assert(host[at] == name[at]);
            } else {
                assert(host[at] == atespace[at - dot - 1]);
            }
        }
    }
}

/// An error that the control plane gave is told with its name and its message; an answer that
/// cannot be used is told by what is wrong with it.
pub proof fn law_resume_errors_tell_what_went_wrong(code: GrpcCode, message: String)
    ensures
        resume_error_text(ResumeError::InvalidResponse(message)) == message@,
        crate::text::starts_with(
            resume_error_text(ResumeError::Status(code, message)),
            code_text(code),
        ),
        crate::text::ends_with(resume_error_text(ResumeError::Status(code, message)), message@),
{
    crate::text::law_parts_are_found(code_text(code), ": "@, message@);
}

/// Where a request knows its actor to run once a lookup has given `result`.
pub open spec fn place_after(current: Option<CachedAssignment>, result: ResolutionResult) -> Option<
    CachedAssignment,
> {
    match result {
        Ok((assignment, _)) => Some(assignment),
        Err(_) => current,
    }
}

/// What a lookup finds is kept for the rest of the request, wherever it was found; a lookup that
/// fails changes nothing.
pub proof fn law_found_places_are_kept(
    current: Option<CachedAssignment>,
    assignment: CachedAssignment,
    source: ResolutionSource,
    error: ResumeError,
)
    ensures
        place_after(current, Ok((assignment, source))) == Some(assignment),
        place_after(current, Err((error, source))) == current,
{
}

/// Whether the actor of a request is admitted, given which parts of its name can be names of
/// resources.
pub open spec fn is_admitted(name_is_valid: bool, atespace_is_valid: bool) -> bool {
    !(!name_is_valid || !atespace_is_valid)
}

/// Both parts of a name count: one that cannot be the name of a resource is enough to refuse.
pub proof fn law_both_parts_must_be_names(part: bool)
    ensures
        is_admitted(true, true),
        !is_admitted(part, false),
        !is_admitted(false, part),
{
}

} // verus!
