//! Watching over managed distributions: when one stops answering, its work is
//! drained and proved idle before the distribution is restarted.
//!
//! Whether the evidence is enough is decided elsewhere. This module keeps the
//! evidence, and says what follows from the decision.

use std::collections::VecDeque;

use vstd::prelude::*;

use crate::text;
use crate::text::starts_with;
use crate::wsl_status::{Moment, RegisteredTask};

verus! {

/// How long to wait between two looks, in seconds.
pub const WATCH_INTERVAL_SECONDS: u64 = 10;

/// How long a distribution has to answer, in seconds.
pub const PROBE_TIMEOUT_SECONDS: u64 = 12;

/// How far back recoveries are counted, in nanoseconds: an hour.
pub const CIRCUIT_WINDOW_NANOS: u64 = 3_600_000_000_000;

/// How many recoveries within that time stop further ones.
pub const CIRCUIT_LIMIT: usize = 3;

/// The start of the name of every runner of this product.
pub const RUNNER_PREFIX: &'static str = "runner-manager-";

// ---------------------------------------------------------------------------
// What is remembered
// ---------------------------------------------------------------------------

/// What is remembered of one distribution between two looks. An instant is a
/// number of nanoseconds on a clock that never goes back.
#[derive(Debug)]
pub struct Tracker {
    pub failures: u8,
    pub first_failure: Option<u64>,
    /// The drain that was asked for.
    pub generation: Option<u64>,
    pub fence_held: bool,
    pub last_heartbeat: Option<Moment>,
    pub zero_heartbeats: u8,
    pub zero_inventory_reads: u8,
    /// When the distribution was restarted, oldest first.
    pub recovery_attempts: VecDeque<u64>,
    pub last_recovered_at: Option<Moment>,
}

/// What a [`Tracker`] holds.
pub struct TrackerView {
    pub failures: u8,
    pub first_failure: Option<u64>,
    pub generation: Option<u64>,
    pub fence_held: bool,
    pub last_heartbeat: Option<Moment>,
    pub zero_heartbeats: u8,
    pub zero_inventory_reads: u8,
    pub recovery_attempts: Seq<u64>,
    pub last_recovered_at: Option<Moment>,
}

impl View for Tracker {
    type V = TrackerView;

    open spec fn view(&self) -> TrackerView {
        TrackerView {
            failures: self.failures,
            first_failure: self.first_failure,
            generation: self.generation,
            fence_held: self.fence_held,
            last_heartbeat: self.last_heartbeat,
            zero_heartbeats: self.zero_heartbeats,
            zero_inventory_reads: self.zero_inventory_reads,
            recovery_attempts: self.recovery_attempts@,
            last_recovered_at: self.last_recovered_at,
        }
    }
}

impl Tracker {
    /// Nothing remembered yet.
    pub fn new() -> (tracker: Tracker)
        ensures
            tracker@ == (TrackerView {
                failures: 0,
                first_failure: None,
                generation: None,
                fence_held: false,
                last_heartbeat: None,
                zero_heartbeats: 0,
                zero_inventory_reads: 0,
                recovery_attempts: Seq::empty(),
                last_recovered_at: None,
            }),
    {
        Tracker {
            failures: 0,
            first_failure: None,
            generation: None,
            fence_held: false,
            last_heartbeat: None,
            zero_heartbeats: 0,
            zero_inventory_reads: 0,
            recovery_attempts: VecDeque::new(),
            last_recovered_at: None,
        }
    }
}

/// One more, up to the largest.
pub open spec fn counted(n: u8) -> u8 {
    if n == 255 {
        255
    } else {
        (n + 1) as u8
    }
}

/// Counts one more, up to the largest.
fn count(n: u8) -> (more: u8)
    ensures
        more == counted(n),
{
    if n == 255 {
        255
    } else {
        n + 1
    }
}

/// The number of a drain that begins at this time: its milliseconds, and 1 where
/// those are not positive.
pub open spec fn generation_at(millis: i64) -> u64 {
    if millis < 1 {
        1
    } else {
        millis as u64
    }
}

/// Numbers a drain that begins at this time.
pub fn generation_now(millis: i64) -> (generation: u64)
    ensures
        generation == generation_at(millis),
        generation >= 1,
{
    if millis < 1 {
        1
    } else {
        millis as u64
    }
}

/// The time from one instant to another, and none where the clock stands still.
pub open spec fn span(from: u64, to: u64) -> u64 {
    if to < from {
        0
    } else {
        (to - from) as u64
    }
}

/// The time from one instant to another.
fn elapsed(from: u64, to: u64) -> (nanos: u64)
    ensures
        nanos == span(from, to),
{
    if to < from {
        0
    } else {
        to - from
    }
}

// ---------------------------------------------------------------------------
// Heartbeats
// ---------------------------------------------------------------------------

/// What the distribution last said of itself.
#[derive(Debug, Clone, Copy, PartialEq, Eq, Structural)]
pub struct Heartbeat {
    pub observed_at: Moment,
    /// The drain that it acknowledged.
    pub acknowledged_generation: Option<u64>,
    pub local_active_attempts: Option<u32>,
    pub unmanaged_runner_services: Option<u32>,
}

/// The count of idle heartbeats, after one more was looked at. One that was
/// looked at before counts for nothing; one that is idle for another drain, or
/// not idle, starts the count again.
pub open spec fn heard(
    tracker: TrackerView,
    heartbeat: Option<Heartbeat>,
    generation: u64,
) -> TrackerView {
    match heartbeat {
        None => TrackerView { zero_heartbeats: 0, ..tracker },
        Some(beat) => if tracker.last_heartbeat == Some(beat.observed_at) {
            tracker
        } else {
            TrackerView {
                last_heartbeat: Some(beat.observed_at),
                zero_heartbeats: if beat.acknowledged_generation == Some(generation)
                    && beat.local_active_attempts == Some(0u32) {
                    counted(tracker.zero_heartbeats)
                } else {
                    0
                },
                ..tracker
            }
        },
    }
}

/// Looks at a heartbeat.
pub fn update_zero_heartbeats(tracker: &mut Tracker, heartbeat: &Option<Heartbeat>, generation: u64)
    ensures
        final(tracker)@ == heard(old(tracker)@, *heartbeat, generation),
{
    match heartbeat {
        None => {
            tracker.zero_heartbeats = 0;
        },
        Some(beat) => {
            let seen = match tracker.last_heartbeat {
                Some(last) => last == beat.observed_at,
                None => false,
            };
            if seen {
                return;
            }
            let acknowledged = match beat.acknowledged_generation {
                Some(number) => number == generation,
                None => false,
            };
            let idle = match beat.local_active_attempts {
                Some(attempts) => attempts == 0,
                None => false,
            };
            tracker.last_heartbeat = Some(beat.observed_at);
            tracker.zero_heartbeats =
            if acknowledged && idle {
                count(tracker.zero_heartbeats)
            } else {
                0
            };
        },
    }
}

/// Looking at one heartbeat twice is looking at it once.
pub proof fn law_a_heartbeat_counts_once(tracker: TrackerView, heartbeat: Heartbeat, generation: u64)
    ensures
        heard(heard(tracker, Some(heartbeat), generation), Some(heartbeat), generation) == heard(
            tracker,
            Some(heartbeat),
            generation,
        ),
{
}

/// The count grows only by an idle heartbeat of the drain that was asked for.
pub proof fn law_only_idle_heartbeats_of_this_drain_count(
    tracker: TrackerView,
    heartbeat: Option<Heartbeat>,
    generation: u64,
)
    requires
        heard(tracker, heartbeat, generation).zero_heartbeats > tracker.zero_heartbeats,
    ensures
        heartbeat matches Some(beat) && beat.acknowledged_generation == Some(generation)
            && beat.local_active_attempts == Some(0u32) && tracker.last_heartbeat != Some(
            beat.observed_at,
        ),
{
}

// ---------------------------------------------------------------------------
// The inventory
// ---------------------------------------------------------------------------

/// One runner that the service knows of.
#[derive(Debug, Clone)]
pub struct ListedRunner {
    pub name: String,
    pub busy: bool,
    pub online: bool,
}

/// The runners of one target.
#[derive(Debug, Clone)]
pub struct InventoryPage {
    /// Whether there are more than are listed.
    pub truncated: bool,
    /// Whether the target is not there.
    pub missing: bool,
    pub runners: Vec<ListedRunner>,
}

/// Whether a page lists every runner of its target.
pub open spec fn is_complete(page: Option<InventoryPage>) -> bool {
    page matches Some(listed) && !listed.truncated && !listed.missing
}

/// Whether a runner is of this product.
pub open spec fn is_ours(runner: ListedRunner) -> bool {
    RUNNER_PREFIX@.is_prefix_of(runner.name@)
}

/// How many of the runners are this product's and busy (`busy`), or online.
pub open spec fn runners_counted(runners: Seq<ListedRunner>, busy: bool) -> nat
    decreases runners.len(),
{
    if runners.len() == 0 {
        0
    } else {
        runners_counted(runners.drop_last(), busy) + (if is_ours(runners.last()) && (if busy {
            runners.last().busy
        } else {
            runners.last().online
        }) {
            1nat
        } else {
            0nat
        })
    }
}

/// How many of the runners on the pages are this product's and busy (`busy`), or
/// online.
pub open spec fn pages_counted(pages: Seq<Option<InventoryPage>>, busy: bool) -> nat
    decreases pages.len(),
{
    if pages.len() == 0 {
        0
    } else {
        pages_counted(pages.drop_last(), busy) + (match pages.last() {
            Some(page) => runners_counted(page.runners@, busy),
            None => 0,
        })
    }
}

/// A number in 32 bits, or the largest such number.
pub open spec fn at_most_u32(n: nat) -> u32 {
    if n > 0xffff_ffff {
        0xffff_ffffu32
    } else {
        n as u32
    }
}

/// How many managed runners are busy and how many are online, where every page
/// is complete.
pub open spec fn inventory_of(pages: Seq<Option<InventoryPage>>) -> Option<(u32, u32)> {
    if forall|i: int| 0 <= i < pages.len() ==> is_complete(#[trigger] pages[i]) {
        Some((at_most_u32(pages_counted(pages, true)), at_most_u32(pages_counted(pages, false))))
    } else {
        None
    }
}

/// Adds one where a flag is set, up to the largest number.
fn add_flag(n: u32, flag: bool) -> (more: u32)
    ensures
        more == at_most_u32((n + if flag {
            1int
        } else {
            0int
        }) as nat),
{
    if flag && n < 0xffff_ffff {
        n + 1
    } else {
        n
    }
}

/// Counts the managed runners on the pages, one page per target; a page that
/// could not be had is none. An incomplete page makes the whole count unknown.
pub fn github_inventory(pages: &Vec<Option<InventoryPage>>) -> (counts: Option<(u32, u32)>)
    ensures
        counts == inventory_of(pages@),
{
    let mut busy: u32 = 0;
    let mut online: u32 = 0;
    let mut i: usize = 0;
    while i < pages.len()
        invariant
            i <= pages@.len(),
            forall|k: int| 0 <= k < i ==> is_complete(#[trigger] pages@[k]),
            busy == at_most_u32(pages_counted(pages@.take(i as int), true)),
            online == at_most_u32(pages_counted(pages@.take(i as int), false)),
        decreases pages.len() - i,
    {
        match &pages[i] {
            None => {
                assert(!is_complete(pages@[i as int]));
                return None;
            },
            Some(page) => {
                if page.truncated || page.missing {
                    assert(!is_complete(pages@[i as int]));
                    return None;
                }
                let ghost before = pages@.take(i as int);
                let mut k: usize = 0;
                while k < page.runners.len()
                    invariant
                        k <= page.runners@.len(),
                        busy == at_most_u32(
                            pages_counted(before, true) + runners_counted(
                                page.runners@.take(k as int),
                                true,
                            ),
                        ),
                        online == at_most_u32(
                            pages_counted(before, false) + runners_counted(
                                page.runners@.take(k as int),
                                false,
                            ),
                        ),
                    decreases page.runners.len() - k,
                {
                    let runner = &page.runners[k];
                    let ours = starts_with(runner.name.as_str(), RUNNER_PREFIX);
                    assert(page.runners@.take(k as int + 1).drop_last() == page.runners@.take(
                        k as int,
                    ));
                    busy = add_flag(busy, ours && runner.busy);
                    online = add_flag(online, ours && runner.online);
                    k = k + 1;
                }
                assert(page.runners@.take(k as int) == page.runners@);
                assert(pages@.take(i as int + 1).drop_last() == before);
                assert(pages@.take(i as int + 1).last() == pages@[i as int]);
            },
        }
        i = i + 1;
    }
    assert(pages@.take(i as int) == pages@);
    Some((busy, online))
}

// ---------------------------------------------------------------------------
// The circuit
// ---------------------------------------------------------------------------

/// The recoveries without the leading ones that are over an hour old.
pub open spec fn recent(attempts: Seq<u64>, now: u64) -> Seq<u64>
    decreases attempts.len(),
{
    if attempts.len() > 0 && span(attempts[0], now) > CIRCUIT_WINDOW_NANOS {
        recent(attempts.skip(1), now)
    } else {
        attempts
    }
}

/// Forgets the recoveries that are over an hour old.
pub fn expire_circuit(tracker: &mut Tracker, now: u64)
    ensures
        final(tracker)@ == (TrackerView {
            recovery_attempts: recent(old(tracker)@.recovery_attempts, now),
            ..old(tracker)@
        }),
{
    let ghost all = tracker@.recovery_attempts;
    let ghost before = tracker@;
    while tracker.recovery_attempts.len() > 0 && elapsed(tracker.recovery_attempts[0], now)
        > CIRCUIT_WINDOW_NANOS
        invariant
            recent(tracker@.recovery_attempts, now) == recent(all, now),
            tracker@ == (TrackerView { recovery_attempts: tracker@.recovery_attempts, ..before }),
        decreases tracker.recovery_attempts@.len(),
    {
        let ghost left = tracker@.recovery_attempts;
        let _ = tracker.recovery_attempts.pop_front();
        assert(tracker@.recovery_attempts =~= left.skip(1));
    }
}

/// With the recoveries in the order they happened, exactly those of the last
/// hour are remembered.
pub proof fn law_the_circuit_remembers_the_last_hour(attempts: Seq<u64>, now: u64)
    requires
        forall|i: int, j: int| 0 <= i <= j < attempts.len() ==> attempts[i] <= attempts[j],
    ensures
        ({
            let kept = recent(attempts, now);
            let gone = attempts.len() - kept.len();
            &&& 0 <= gone
            &&& kept == attempts.skip(gone)
            &&& forall|i: int|
                0 <= i < gone ==> span(#[trigger] attempts[i], now) > CIRCUIT_WINDOW_NANOS
            &&& forall|i: int|
                gone <= i < attempts.len() ==> span(#[trigger] attempts[i], now)
                    <= CIRCUIT_WINDOW_NANOS
        }),
    decreases attempts.len(),
{
    if attempts.len() > 0 && span(attempts[0], now) > CIRCUIT_WINDOW_NANOS {
        let rest = attempts.skip(1);
        law_the_circuit_remembers_the_last_hour(rest, now);
        let gone = rest.len() - recent(rest, now).len();
        assert(rest.skip(gone) == attempts.skip(gone + 1));
        assert forall|i: int| 0 <= i < gone + 1 implies span(#[trigger] attempts[i], now)
            > CIRCUIT_WINDOW_NANOS by {
            if i > 0 {
                assert(attempts[i] == rest[i - 1]);
            }
        }
        assert forall|i: int| gone + 1 <= i < attempts.len() implies span(
            #[trigger] attempts[i],
            now,
        ) <= CIRCUIT_WINDOW_NANOS by {
            assert(attempts[i] == rest[i - 1]);
        }
    } else {
        assert(attempts.skip(0) == attempts);
        assert forall|i: int| 0 <= i < attempts.len() implies span(#[trigger] attempts[i], now)
            <= CIRCUIT_WINDOW_NANOS by {
            assert(attempts[0] <= attempts[i]);
        }
    }
}

// ---------------------------------------------------------------------------
// The age of a heartbeat
// ---------------------------------------------------------------------------

/// The time from one moment to a later one, in seconds and nanoseconds.
pub uninterp spec fn time_since(
    later_seconds: int,
    later_nanos: int,
    earlier_seconds: int,
    earlier_nanos: int,
) -> Option<(u64, u32)>;

/// Whether a moment lies in the years that chrono knows, and in no leap second.
pub open spec fn is_plain(moment: Moment) -> bool {
    -8_000_000_000_000 <= moment.seconds <= 8_000_000_000_000 && moment.nanos < 1_000_000_000
}

/// A moment in nanoseconds.
pub open spec fn nanos_of(moment: Moment) -> int {
    moment.seconds * 1_000_000_000 + moment.nanos
}

/// Wraps `chrono::DateTime::<Utc>::from_timestamp`, the difference of two such
/// moments, and `chrono::TimeDelta::to_std`. Claimed of them: the result depends
/// on the two moments alone, and between moments in ordinary years and outside
/// of leap seconds it is their distance, or none where the first is the earlier.
/// What a leap second counts for is not stated here.
#[verifier::external_body]
fn between(later: Moment, earlier: Moment) -> (age: Option<(u64, u32)>)
    ensures
        age == time_since(
            later.seconds as int,
            later.nanos as int,
            earlier.seconds as int,
            earlier.nanos as int,
        ),
        is_plain(later) && is_plain(earlier) ==> match age {
            Some(parts) => parts.1 < 1_000_000_000 && parts.0 * 1_000_000_000 + parts.1 == nanos_of(
                later,
            ) - nanos_of(earlier),
            None => nanos_of(later) < nanos_of(earlier),
        },
{
    let later = chrono::DateTime::from_timestamp(later.seconds, later.nanos)?;
    let earlier = chrono::DateTime::from_timestamp(earlier.seconds, earlier.nanos)?;
    let age = (later - earlier).to_std().ok()?;
    Some((age.as_secs(), age.subsec_nanos()))
}

/// How long ago an earlier moment was.
pub fn age_of(now: Moment, then: Moment) -> (age: Option<(u64, u32)>)
    ensures
        age == time_since(
            now.seconds as int,
            now.nanos as int,
            then.seconds as int,
            then.nanos as int,
        ),
        is_plain(now) && is_plain(then) ==> match age {
            Some(parts) => parts.1 < 1_000_000_000 && parts.0 * 1_000_000_000 + parts.1 == nanos_of(
                now,
            ) - nanos_of(then),
            None => nanos_of(now) < nanos_of(then),
        },
{
    between(now, then)
}

// ---------------------------------------------------------------------------
// One look at one distribution
// ---------------------------------------------------------------------------

/// Everything that the decision to restart a distribution rests on.
#[derive(Debug, Clone, Copy, PartialEq, Eq)]
pub struct RecoveryEvidence {
    pub consecutive_probe_failures: u8,
    /// How long it has not answered, in nanoseconds.
    pub failure_span: u64,
    /// Not answering is a failure that a restart can mend.
    pub failure_is_recoverable: bool,
    pub drain_generation: u64,
    pub acknowledged_generation: Option<u64>,
    pub heartbeat_age: Option<(u64, u32)>,
    pub local_active_attempts: Option<u32>,
    pub consecutive_zero_attempt_heartbeats: u8,
    pub managed_busy_runners: Option<u32>,
    pub managed_online_registrations: Option<u32>,
    pub consecutive_zero_inventory_reads: u8,
    pub unmanaged_runner_services: Option<u32>,
    pub task_is_product_owned: bool,
    pub distribution_is_wsl2: bool,
    pub inventory_authorized: bool,
    pub recovery_fence_held: bool,
    pub circuit_open: bool,
}

/// What the evidence allows.
#[derive(Debug)]
pub enum RecoveryDecision {
    Observe,
    RequestDrain,
    Blocked(String),
    TerminateNamed,
}

/// What is published about a distribution.
#[derive(Debug, Clone, Copy, PartialEq, Eq, Structural)]
pub enum RecoveryPhase {
    Healthy,
    Degraded,
    Draining,
    RecoveryBlocked,
    Recovering,
    Backoff,
}

/// One thing that a look at a distribution does.
#[derive(Debug, Clone, Copy, PartialEq, Eq, Structural)]
pub enum WatchStep {
    /// Write the drain request.
    Request,
    /// Claim the fence.
    Claim,
    /// Read the distribution's heartbeat.
    ReadHeartbeat,
    /// List the runners of its targets.
    ReadInventory,
    /// Read the clocks.
    Weigh,
    /// Have the evidence decided on.
    Decide,
    /// Restart the distribution.
    Recover,
    /// Over.
    Observed,
}

/// What a step of a look came to.
#[derive(Debug)]
pub enum WatchEvent {
    /// It succeeded.
    Done,
    /// It failed.
    Failed,
    /// The fence is another's, or the watchdog's own for this drain.
    Held { by_recovery: bool, generation: Option<u64> },
    /// The heartbeat, where there is one that can be read.
    Heard(Option<Heartbeat>),
    /// The runners of each target, as far as they could be had.
    Listed(Vec<Option<InventoryPage>>),
    /// What the clocks say.
    Clock { utc: Moment, instant: u64 },
    /// The decision, at this instant.
    Decided { decision: RecoveryDecision, instant: u64 },
    /// Whether the distribution answers again, at this moment.
    Recovered { answers: bool, utc: Moment },
}

/// What a look finds out first.
#[derive(Debug)]
pub struct HostFacts {
    /// Whether the distribution answered.
    pub answered: bool,
    pub task: Option<RegisteredTask>,
    /// Its WSL version, where exactly one distribution has its name.
    pub wsl_version: Option<u8>,
    /// The instant of this look.
    pub instant: u64,
    /// The milliseconds of this look since 1970.
    pub millis: i64,
}

/// A look at one distribution.
#[derive(Debug)]
pub struct Watching {
    pub step: WatchStep,
    pub tracker: Tracker,
    pub task_owned: bool,
    pub distribution_is_wsl2: bool,
    pub heartbeat: Option<Heartbeat>,
    pub inventory: Option<(u32, u32)>,
    pub evidence: Option<RecoveryEvidence>,
}

/// What a [`Watching`] holds.
pub struct WatchingView {
    pub step: WatchStep,
    pub tracker: TrackerView,
    pub task_owned: bool,
    pub distribution_is_wsl2: bool,
    pub heartbeat: Option<Heartbeat>,
    pub inventory: Option<(u32, u32)>,
    pub evidence: Option<RecoveryEvidence>,
}

impl View for Watching {
    type V = WatchingView;

    open spec fn view(&self) -> WatchingView {
        WatchingView {
            step: self.step,
            tracker: self.tracker@,
            task_owned: self.task_owned,
            distribution_is_wsl2: self.distribution_is_wsl2,
            heartbeat: self.heartbeat,
            inventory: self.inventory,
            evidence: self.evidence,
        }
    }
}

/// What is published.
#[derive(Debug)]
pub struct Publication {
    pub phase: RecoveryPhase,
    pub consecutive_probe_failures: u8,
    pub reason: Option<String>,
    pub last_recovered_at: Option<Moment>,
}

/// What a [`Publication`] says.
pub struct PublicationView {
    pub phase: RecoveryPhase,
    pub consecutive_probe_failures: u8,
    pub reason: Option<Seq<char>>,
    pub last_recovered_at: Option<Moment>,
}

impl View for Publication {
    type V = PublicationView;

    open spec fn view(&self) -> PublicationView {
        PublicationView {
            phase: self.phase,
            consecutive_probe_failures: self.consecutive_probe_failures,
            reason: text::opt_text(self.reason),
            last_recovered_at: self.last_recovered_at,
        }
    }
}

/// Where a look is, the drain whose files are to be cleared first, and what is
/// then to be published.
#[derive(Debug)]
pub struct WatchMove {
    pub watching: Watching,
    pub cleared: Option<u64>,
    pub published: Option<Publication>,
}

/// What a [`WatchMove`] says.
pub struct WatchMoveView {
    pub watching: WatchingView,
    pub cleared: Option<u64>,
    pub published: Option<PublicationView>,
}

impl View for WatchMove {
    type V = WatchMoveView;

    open spec fn view(&self) -> WatchMoveView {
        WatchMoveView {
            watching: self.watching@,
            cleared: self.cleared,
            published: match self.published {
                Some(publication) => Some(publication@),
                None => None,
            },
        }
    }
}

/// A tracker after the distribution answered: nothing is suspected, and no drain
/// is asked for. What was heard and done before stays known.
pub open spec fn answering(tracker: TrackerView) -> TrackerView {
    TrackerView {
        failures: 0,
        first_failure: None,
        generation: None,
        fence_held: false,
        zero_heartbeats: 0,
        zero_inventory_reads: 0,
        ..tracker
    }
}

/// Puts a tracker back after the distribution answered.
fn forget(tracker: Tracker) -> (calm: Tracker)
    ensures
        calm@ == answering(tracker@),
{
    let mut calm = tracker;
    calm.failures = 0;
    calm.first_failure = None;
    calm.generation = None;
    calm.fence_held = false;
    calm.zero_heartbeats = 0;
    calm.zero_inventory_reads = 0;
    calm
}

/// A tracker after the distribution did not answer.
pub open spec fn not_answering(tracker: TrackerView, instant: u64, millis: i64) -> TrackerView {
    TrackerView {
        failures: counted(tracker.failures),
        first_failure: match tracker.first_failure {
            Some(first) => Some(first),
            None => Some(instant),
        },
        generation: match tracker.generation {
            Some(number) => Some(number),
            None => Some(generation_at(millis)),
        },
        ..tracker
    }
}

/// What is published of a tracker.
pub open spec fn publication(
    tracker: TrackerView,
    phase: RecoveryPhase,
    reason: Option<Seq<char>>,
) -> PublicationView {
    PublicationView {
        phase,
        consecutive_probe_failures: tracker.failures,
        reason,
        last_recovered_at: tracker.last_recovered_at,
    }
}

/// Publishes a tracker.
fn publish(tracker: &Tracker, phase: RecoveryPhase, reason: Option<String>) -> (said: Publication)
    ensures
        said@ == publication(tracker@, phase, text::opt_text(reason)),
{
    Publication {
        phase,
        consecutive_probe_failures: tracker.failures,
        reason,
        last_recovered_at: tracker.last_recovered_at,
    }
}

/// How a look begins.
pub open spec fn begun(tracker: TrackerView, facts: HostFacts) -> WatchMoveView {
    let now = if facts.answered {
        answering(tracker)
    } else {
        not_answering(tracker, facts.instant, facts.millis)
    };
    WatchMoveView {
        watching: WatchingView {
            step: if facts.answered {
                WatchStep::Observed
            } else {
                WatchStep::Request
            },
            tracker: now,
            task_owned: facts.task matches Some(task) && task.product_owned && task.enabled,
            distribution_is_wsl2: facts.wsl_version == Some(2u8),
            heartbeat: None,
            inventory: None,
            evidence: None,
        },
        cleared: if facts.answered {
            tracker.generation
        } else {
            None
        },
        published: if facts.answered {
            Some(publication(now, RecoveryPhase::Healthy, None))
        } else {
            None
        },
    }
}

/// Begins a look at a distribution: one that answers is over at once.
pub fn begin(tracker: Tracker, facts: &HostFacts) -> (next: WatchMove)
    ensures
        next@ == begun(tracker@, *facts),
{
    let task_owned = match &facts.task {
        Some(task) => task.product_owned && task.enabled,
        None => false,
    };
    let distribution_is_wsl2 = match facts.wsl_version {
        Some(version) => version == 2,
        None => false,
    };
    if facts.answered {
        let cleared = tracker.generation;
        let calm = forget(tracker);
        let said = publish(&calm, RecoveryPhase::Healthy, None);
        return WatchMove {
            watching: Watching {
                step: WatchStep::Observed,
                tracker: calm,
                task_owned,
                distribution_is_wsl2,
                heartbeat: None,
                inventory: None,
                evidence: None,
            },
            cleared,
            published: Some(said),
        };
    }
    let mut now = tracker;
    now.failures = count(now.failures);
    if now.first_failure.is_none() {
        now.first_failure = Some(facts.instant);
    }
    if now.generation.is_none() {
        now.generation = Some(generation_now(facts.millis));
    }
    WatchMove {
        watching: Watching {
            step: WatchStep::Request,
            tracker: now,
            task_owned,
            distribution_is_wsl2,
            heartbeat: None,
            inventory: None,
            evidence: None,
        },
        cleared: None,
        published: None,
    }
}

/// The drain of a look that found no answer.
pub open spec fn drain_of(tracker: TrackerView) -> u64 {
    match tracker.generation {
        Some(number) => number,
        None => 0,
    }
}

/// The evidence, from what was found and what the clocks say.
pub open spec fn evidence_of(watching: WatchingView, utc: Moment, instant: u64) -> RecoveryEvidence {
    let tracker = watching.tracker;
    RecoveryEvidence {
        consecutive_probe_failures: tracker.failures,
        failure_span: match tracker.first_failure {
            Some(first) => span(first, instant),
            None => 0,
        },
        failure_is_recoverable: true,
        drain_generation: drain_of(tracker),
        acknowledged_generation: match watching.heartbeat {
            Some(beat) => beat.acknowledged_generation,
            None => None,
        },
        heartbeat_age: match watching.heartbeat {
            Some(beat) => time_since(
                utc.seconds as int,
                utc.nanos as int,
                beat.observed_at.seconds as int,
                beat.observed_at.nanos as int,
            ),
            None => None,
        },
        local_active_attempts: match watching.heartbeat {
            Some(beat) => beat.local_active_attempts,
            None => None,
        },
        consecutive_zero_attempt_heartbeats: tracker.zero_heartbeats,
        managed_busy_runners: match watching.inventory {
            Some(counts) => Some(counts.0),
            None => None,
        },
        managed_online_registrations: match watching.inventory {
            Some(counts) => Some(counts.1),
            None => None,
        },
        consecutive_zero_inventory_reads: tracker.zero_inventory_reads,
        unmanaged_runner_services: match watching.heartbeat {
            Some(beat) => beat.unmanaged_runner_services,
            None => None,
        },
        task_is_product_owned: watching.task_owned,
        distribution_is_wsl2: watching.distribution_is_wsl2,
        inventory_authorized: watching.inventory is Some,
        recovery_fence_held: tracker.fence_held,
        circuit_open: recent(tracker.recovery_attempts, instant).len() >= CIRCUIT_LIMIT,
    }
}

/// The count of empty inventories, after one more was read.
pub open spec fn inventory_read(tracker: TrackerView, counts: Option<(u32, u32)>) -> TrackerView {
    TrackerView {
        zero_inventory_reads: match counts {
            Some(found) if found.0 == 0 && found.1 == 0 => counted(tracker.zero_inventory_reads),
            _ => 0,
        },
        ..tracker
    }
}

/// Going on in silence.
pub open spec fn watching_on(watching: WatchingView) -> WatchMoveView {
    WatchMoveView { watching, cleared: None, published: None }
}

/// Being done, with something to publish.
pub open spec fn done_with(
    watching: WatchingView,
    phase: RecoveryPhase,
    reason: Option<Seq<char>>,
) -> WatchMoveView {
    WatchMoveView {
        watching: WatchingView { step: WatchStep::Observed, ..watching },
        cleared: None,
        published: Some(publication(watching.tracker, phase, reason)),
    }
}

/// What follows a decision. Only one of the four restarts the distribution, and
/// it is remembered before anything is done.
pub open spec fn decided(
    watching: WatchingView,
    decision: RecoveryDecision,
    instant: u64,
) -> WatchMoveView {
    match decision {
        RecoveryDecision::Observe => done_with(
            watching,
            RecoveryPhase::Degraded,
            Some("waiting for the bounded failure threshold"@),
        ),
        RecoveryDecision::RequestDrain => done_with(
            watching,
            RecoveryPhase::Draining,
            Some("waiting for the guest drain acknowledgement"@),
        ),
        RecoveryDecision::Blocked(reason) => done_with(
            watching,
            RecoveryPhase::RecoveryBlocked,
            Some(reason@),
        ),
        RecoveryDecision::TerminateNamed => WatchMoveView {
            watching: WatchingView {
                step: WatchStep::Recover,
                tracker: TrackerView {
                    recovery_attempts: watching.tracker.recovery_attempts.push(instant),
                    ..watching.tracker
                },
                ..watching
            },
            cleared: None,
            published: Some(publication(watching.tracker, RecoveryPhase::Recovering, None)),
        },
    }
}

/// What follows a restart.
pub open spec fn restarted(watching: WatchingView, answers: bool, utc: Moment) -> WatchMoveView {
    if answers {
        let calm = TrackerView {
            last_recovered_at: Some(utc),
            ..answering(watching.tracker)
        };
        WatchMoveView {
            watching: WatchingView { step: WatchStep::Observed, tracker: calm, ..watching },
            cleared: Some(drain_of(watching.tracker)),
            published: Some(publication(calm, RecoveryPhase::Healthy, None)),
        }
    } else {
        done_with(
            watching,
            RecoveryPhase::Backoff,
            Some("the named distribution did not become healthy after recovery"@),
        )
    }
}

/// What follows a step of a look. An event that does not answer the step leaves
/// the look where it is.
pub open spec fn observed_after(watching: WatchingView, event: WatchEvent) -> WatchMoveView {
    match (watching.step, event) {
        (WatchStep::Request, WatchEvent::Failed) => done_with(
            watching,
            RecoveryPhase::RecoveryBlocked,
            Some("the drain request cannot be written"@),
        ),
        (WatchStep::Request, WatchEvent::Done) => watching_on(
            WatchingView {
                step: if watching.tracker.fence_held {
                    WatchStep::ReadHeartbeat
                } else {
                    WatchStep::Claim
                },
                ..watching
            },
        ),
        (WatchStep::Claim, WatchEvent::Done) => watching_on(
            WatchingView {
                step: WatchStep::ReadHeartbeat,
                tracker: TrackerView { fence_held: true, ..watching.tracker },
                ..watching
            },
        ),
        (WatchStep::Claim, WatchEvent::Held { by_recovery, generation }) => watching_on(
            WatchingView {
                step: WatchStep::ReadHeartbeat,
                tracker: TrackerView {
                    fence_held: by_recovery && generation == Some(drain_of(watching.tracker)),
                    ..watching.tracker
                },
                ..watching
            },
        ),
        (WatchStep::Claim, WatchEvent::Failed) => watching_on(
            WatchingView { step: WatchStep::ReadHeartbeat, ..watching },
        ),
        (WatchStep::ReadHeartbeat, WatchEvent::Heard(heartbeat)) => watching_on(
            WatchingView {
                step: if heartbeat is Some {
                    WatchStep::ReadInventory
                } else {
                    WatchStep::Weigh
                },
                tracker: heard(watching.tracker, heartbeat, drain_of(watching.tracker)),
                heartbeat,
                ..watching
            },
        ),
        (WatchStep::ReadInventory, WatchEvent::Listed(pages)) => watching_on(
            WatchingView {
                step: WatchStep::Weigh,
                tracker: inventory_read(watching.tracker, inventory_of(pages@)),
                inventory: inventory_of(pages@),
                ..watching
            },
        ),
        (WatchStep::Weigh, WatchEvent::Clock { utc, instant }) => watching_on(
            WatchingView {
                step: WatchStep::Decide,
                tracker: TrackerView {
                    recovery_attempts: recent(watching.tracker.recovery_attempts, instant),
                    ..watching.tracker
                },
                evidence: Some(evidence_of(watching, utc, instant)),
                ..watching
            },
        ),
        (WatchStep::Decide, WatchEvent::Decided { decision, instant }) => decided(
            watching,
            decision,
            instant,
        ),
        (WatchStep::Recover, WatchEvent::Recovered { answers, utc }) => restarted(
            watching,
            answers,
            utc,
        ),
        _ => watching_on(watching),
    }
}

/// Goes on in silence.
fn silently(watching: Watching) -> (next: WatchMove)
    ensures
        next@ == watching_on(watching@),
{
    WatchMove { watching, cleared: None, published: None }
}

/// Ends a look with something to publish.
fn finish(watching: Watching, phase: RecoveryPhase, reason: Option<String>) -> (next: WatchMove)
    ensures
        next@ == done_with(watching@, phase, text::opt_text(reason)),
{
    let mut now = watching;
    let said = publish(&now.tracker, phase, reason);
    now.step = WatchStep::Observed;
    WatchMove { watching: now, cleared: None, published: Some(said) }
}

/// The drain of a look that found no answer.
fn drain(tracker: &Tracker) -> (number: u64)
    ensures
        number == drain_of(tracker@),
{
    match tracker.generation {
        Some(number) => number,
        None => 0,
    }
}

/// Weighs what was found.
fn weigh(watching: Watching, utc: Moment, instant: u64) -> (next: Watching)
    ensures
        next@ == (WatchingView {
            step: WatchStep::Decide,
            tracker: TrackerView {
                recovery_attempts: recent(watching@.tracker.recovery_attempts, instant),
                ..watching@.tracker
            },
            evidence: Some(evidence_of(watching@, utc, instant)),
            ..watching@
        }),
{
    let mut now = watching;
    expire_circuit(&mut now.tracker, instant);
    let failure_span: u64 = match now.tracker.first_failure {
        Some(first) => elapsed(first, instant),
        None => 0,
    };
    let heartbeat_age = match now.heartbeat {
        Some(beat) => age_of(utc, beat.observed_at),
        None => None,
    };
    now.evidence =
    Some(
        RecoveryEvidence {
            consecutive_probe_failures: now.tracker.failures,
            failure_span,
            failure_is_recoverable: true,
            drain_generation: drain(&now.tracker),
            acknowledged_generation: match now.heartbeat {
                Some(beat) => beat.acknowledged_generation,
                None => None,
            },
            heartbeat_age,
            local_active_attempts: match now.heartbeat {
                Some(beat) => beat.local_active_attempts,
                None => None,
            },
            consecutive_zero_attempt_heartbeats: now.tracker.zero_heartbeats,
            managed_busy_runners: match now.inventory {
                Some(counts) => Some(counts.0),
                None => None,
            },
            managed_online_registrations: match now.inventory {
                Some(counts) => Some(counts.1),
                None => None,
            },
            consecutive_zero_inventory_reads: now.tracker.zero_inventory_reads,
            unmanaged_runner_services: match now.heartbeat {
                Some(beat) => beat.unmanaged_runner_services,
                None => None,
            },
            task_is_product_owned: now.task_owned,
            distribution_is_wsl2: now.distribution_is_wsl2,
            inventory_authorized: now.inventory.is_some(),
            recovery_fence_held: now.tracker.fence_held,
            circuit_open: now.tracker.recovery_attempts.len() >= CIRCUIT_LIMIT,
        },
    );
    now.step = WatchStep::Decide;
    now
}

/// Follows a decision.
fn follow(watching: Watching, decision: RecoveryDecision, instant: u64) -> (next: WatchMove)
    ensures
        next@ == decided(watching@, decision, instant),
{
    match decision {
        RecoveryDecision::Observe => finish(
            watching,
            RecoveryPhase::Degraded,
            Some("waiting for the bounded failure threshold".to_owned()),
        ),
        RecoveryDecision::RequestDrain => finish(
            watching,
            RecoveryPhase::Draining,
            Some("waiting for the guest drain acknowledgement".to_owned()),
        ),
        RecoveryDecision::Blocked(reason) => finish(
            watching,
            RecoveryPhase::RecoveryBlocked,
            Some(reason),
        ),
        RecoveryDecision::TerminateNamed => {
            let mut now = watching;
            let said = publish(&now.tracker, RecoveryPhase::Recovering, None);
            now.tracker.recovery_attempts.push_back(instant);
            now.step = WatchStep::Recover;
            WatchMove { watching: now, cleared: None, published: Some(said) }
        },
    }
}

/// Takes one step of a look.
pub fn observe(watching: Watching, event: WatchEvent) -> (next: WatchMove)
    ensures
        next@ == observed_after(watching@, event),
{
    let mut now = watching;
    match (now.step, event) {
        (WatchStep::Request, WatchEvent::Failed) => finish(
            now,
            RecoveryPhase::RecoveryBlocked,
            Some("the drain request cannot be written".to_owned()),
        ),
        (WatchStep::Request, WatchEvent::Done) => {
            now.step =
            if now.tracker.fence_held {
                WatchStep::ReadHeartbeat
            } else {
                WatchStep::Claim
            };
            silently(now)
        },
        (WatchStep::Claim, WatchEvent::Done) => {
            now.tracker.fence_held = true;
            now.step = WatchStep::ReadHeartbeat;
            silently(now)
        },
        (WatchStep::Claim, WatchEvent::Held { by_recovery, generation }) => {
            let ours = match generation {
                Some(number) => number == drain(&now.tracker),
                None => false,
            };
            now.tracker.fence_held = by_recovery && ours;
            now.step = WatchStep::ReadHeartbeat;
            silently(now)
        },
        (WatchStep::Claim, WatchEvent::Failed) => {
            now.step = WatchStep::ReadHeartbeat;
            silently(now)
        },
        (WatchStep::ReadHeartbeat, WatchEvent::Heard(heartbeat)) => {
            let generation = drain(&now.tracker);
            update_zero_heartbeats(&mut now.tracker, &heartbeat, generation);
            now.step =
            if heartbeat.is_some() {
                WatchStep::ReadInventory
            } else {
                WatchStep::Weigh
            };
            now.heartbeat = heartbeat;
            silently(now)
        },
        (WatchStep::ReadInventory, WatchEvent::Listed(pages)) => {
            let counts = github_inventory(&pages);
            let empty = match counts {
                Some(found) => found.0 == 0 && found.1 == 0,
                None => false,
            };
            now.tracker.zero_inventory_reads =
            if empty {
                count(now.tracker.zero_inventory_reads)
            } else {
                0
            };
            now.inventory = counts;
            now.step = WatchStep::Weigh;
            silently(now)
        },
        (WatchStep::Weigh, WatchEvent::Clock { utc, instant }) => silently(
            weigh(now, utc, instant),
        ),
        (WatchStep::Decide, WatchEvent::Decided { decision, instant }) => follow(
            now,
            decision,
            instant,
        ),
        (WatchStep::Recover, WatchEvent::Recovered { answers, utc }) => {
            if !answers {
                return finish(
                    now,
                    RecoveryPhase::Backoff,
                    Some("the named distribution did not become healthy after recovery".to_owned()),
                );
            }
            let cleared = drain(&now.tracker);
            let mut calm = forget(now.tracker);
            calm.last_recovered_at = Some(utc);
            let said = publish(&calm, RecoveryPhase::Healthy, None);
            WatchMove {
                watching: Watching {
                    step: WatchStep::Observed,
                    tracker: calm,
                    task_owned: now.task_owned,
                    distribution_is_wsl2: now.distribution_is_wsl2,
                    heartbeat: now.heartbeat,
                    inventory: now.inventory,
                    evidence: now.evidence,
                },
                cleared: Some(cleared),
                published: Some(said),
            }
        },
        _ => silently(now),
    }
}

/// A distribution that answers is suspected of nothing, and its drain is called
/// off.
pub proof fn law_an_answer_calls_the_drain_off(tracker: TrackerView, facts: HostFacts)
    requires
        facts.answered,
    ensures
        begun(tracker, facts).watching.step == WatchStep::Observed,
        begun(tracker, facts).watching.tracker.generation is None,
        begun(tracker, facts).watching.tracker.failures == 0,
        begun(tracker, facts).cleared == tracker.generation,
        begun(tracker, facts).published matches Some(said) && said.phase == RecoveryPhase::Healthy,
{
}

/// One drain is asked for as long as the distribution does not answer: its
/// number does not change from look to look, nor within a look that does not
/// recover it.
pub proof fn law_a_drain_keeps_its_number(
    tracker: TrackerView,
    facts: HostFacts,
    watching: WatchingView,
    event: WatchEvent,
)
    requires
        !facts.answered,
    ensures
        tracker.generation is Some ==> begun(tracker, facts).watching.tracker.generation
            == tracker.generation,
        begun(tracker, facts).watching.tracker.generation is Some,
        observed_after(watching, event).watching.tracker.generation == watching.tracker.generation
            || (watching.step == WatchStep::Recover && (event matches WatchEvent::Recovered {
            answers,
            ..
        } && answers)),
{
}

/// A distribution is restarted only by that decision, taken on evidence, and the
/// restart is counted before it is done.
pub proof fn law_a_restart_is_decided_and_counted(watching: WatchingView, event: WatchEvent)
    requires
        watching.step != WatchStep::Recover,
        observed_after(watching, event).watching.step == WatchStep::Recover,
    ensures
        watching.step == WatchStep::Decide,
        event matches WatchEvent::Decided { decision, instant } && decision
            == RecoveryDecision::TerminateNamed && observed_after(
            watching,
            event,
        ).watching.tracker.recovery_attempts == watching.tracker.recovery_attempts.push(instant),
{
}

/// A look that comes to a decision has evidence for it, made of what it found.
pub proof fn law_a_decision_has_its_evidence(watching: WatchingView, event: WatchEvent)
    requires
        watching.step != WatchStep::Decide,
        observed_after(watching, event).watching.step == WatchStep::Decide,
    ensures
        event matches WatchEvent::Clock { utc, instant } && observed_after(
            watching,
            event,
        ).watching.evidence == Some(evidence_of(watching, utc, instant)),
{
}

/// After three restarts within the hour, the evidence says that the circuit is
/// open.
pub proof fn law_three_restarts_open_the_circuit(
    watching: WatchingView,
    utc: Moment,
    instant: u64,
)
    requires
        watching.tracker.recovery_attempts.len() >= CIRCUIT_LIMIT,
        forall|i: int|
            0 <= i < watching.tracker.recovery_attempts.len() ==> span(
                #[trigger] watching.tracker.recovery_attempts[i],
                instant,
            ) <= CIRCUIT_WINDOW_NANOS,
    ensures
        evidence_of(watching, utc, instant).circuit_open,
{
    assert(span(watching.tracker.recovery_attempts[0], instant) <= CIRCUIT_WINDOW_NANOS);
}

// ---------------------------------------------------------------------------
// Restarting
// ---------------------------------------------------------------------------

/// One thing that a restart does.
#[derive(Debug, Clone, Copy, PartialEq, Eq, Structural)]
pub enum RestartStep {
    /// Terminate the distribution of this name.
    Terminate,
    /// Let it settle.
    Settle,
    /// Start its lifecycle task.
    StartTask,
    /// Wait before the probe of this number.
    Pause(u8),
    /// Probe it.
    Probe(u8),
    /// Over: whether it answers.
    Over(bool),
}

/// How many times a restarted distribution is probed.
pub const RESTART_PROBES: u8 = 6;

/// How long a step waits, in seconds: longer from probe to probe.
pub open spec fn pause_of(step: RestartStep) -> u64 {
    match step {
        RestartStep::Settle => 2,
        RestartStep::Pause(probe) => if probe == 0 {
            2
        } else if probe == 1 {
            4
        } else if probe == 2 {
            8
        } else if probe == 3 {
            16
        } else {
            30
        },
        _ => 0,
    }
}

/// How long a step waits, in seconds.
pub fn pause_seconds(step: RestartStep) -> (seconds: u64)
    ensures
        seconds == pause_of(step),
{
    match step {
        RestartStep::Settle => 2,
        RestartStep::Pause(probe) => if probe == 0 {
            2
        } else if probe == 1 {
            4
        } else if probe == 2 {
            8
        } else if probe == 3 {
            16
        } else {
            30
        },
        _ => 0,
    }
}

/// What follows a step of a restart, by whether it succeeded. Whether the task
/// could be started does not matter: the probes tell.
pub open spec fn restart_after(step: RestartStep, succeeded: bool) -> RestartStep {
    match step {
        RestartStep::Terminate => if succeeded {
            RestartStep::Settle
        } else {
            RestartStep::Over(false)
        },
        RestartStep::Settle => RestartStep::StartTask,
        RestartStep::StartTask => RestartStep::Pause(0),
        RestartStep::Pause(probe) => RestartStep::Probe(probe),
        RestartStep::Probe(probe) => if succeeded {
            RestartStep::Over(true)
        } else if probe + 1 < RESTART_PROBES {
            RestartStep::Pause((probe + 1) as u8)
        } else {
            RestartStep::Over(false)
        },
        RestartStep::Over(answers) => RestartStep::Over(answers),
    }
}

/// Takes one step of a restart, which begins with [`RestartStep::Terminate`].
pub fn recover_named(step: RestartStep, succeeded: bool) -> (next: RestartStep)
    ensures
        next == restart_after(step, succeeded),
{
    match step {
        RestartStep::Terminate => if succeeded {
            RestartStep::Settle
        } else {
            RestartStep::Over(false)
        },
        RestartStep::Settle => RestartStep::StartTask,
        RestartStep::StartTask => RestartStep::Pause(0),
        RestartStep::Pause(probe) => RestartStep::Probe(probe),
        RestartStep::Probe(probe) => {
            if succeeded {
                RestartStep::Over(true)
            } else if probe < RESTART_PROBES - 1 {
                RestartStep::Pause(probe + 1)
            } else {
                RestartStep::Over(false)
            }
        },
        RestartStep::Over(answers) => RestartStep::Over(answers),
    }
}

/// Where a run of outcomes leaves a restart.
pub open spec fn restart_run(step: RestartStep, outcomes: Seq<bool>) -> RestartStep
    decreases outcomes.len(),
{
    if outcomes.len() == 0 {
        step
    } else {
        restart_run(restart_after(step, outcomes[0]), outcomes.drop_first())
    }
}

/// How long a restart waits altogether, in seconds.
pub open spec fn restart_wait(step: RestartStep, outcomes: Seq<bool>) -> nat
    decreases outcomes.len(),
{
    if outcomes.len() == 0 {
        0
    } else {
        pause_of(step) as nat + restart_wait(
            restart_after(step, outcomes[0]),
            outcomes.drop_first(),
        )
    }
}

/// How many steps a restart can still take.
spec fn steps_left(step: RestartStep) -> int {
    match step {
        RestartStep::Terminate => 15,
        RestartStep::Settle => 14,
        RestartStep::StartTask => 13,
        RestartStep::Pause(probe) => 12 - 2 * probe,
        RestartStep::Probe(probe) => 11 - 2 * probe,
        RestartStep::Over(_) => 0,
    }
}

/// How long a restart can still wait, in seconds.
spec fn wait_left(step: RestartStep) -> nat {
    match step {
        RestartStep::Terminate | RestartStep::Settle => 92,
        RestartStep::StartTask | RestartStep::Pause(0) => 90,
        RestartStep::Probe(0) | RestartStep::Pause(1) => 88,
        RestartStep::Probe(1) | RestartStep::Pause(2) => 84,
        RestartStep::Probe(2) | RestartStep::Pause(3) => 76,
        RestartStep::Probe(3) | RestartStep::Pause(4) => 60,
        RestartStep::Probe(4) | RestartStep::Pause(5) => 30,
        _ => 0,
    }
}

/// Whether a restart is at one of its six probes, or elsewhere.
spec fn in_range(step: RestartStep) -> bool {
    match step {
        RestartStep::Pause(probe) => probe < RESTART_PROBES,
        RestartStep::Probe(probe) => probe < RESTART_PROBES,
        _ => true,
    }
}

/// A restart takes no more steps, and waits no longer, than are left.
proof fn lemma_restart_bounds(step: RestartStep, outcomes: Seq<bool>)
    requires
        in_range(step),
    ensures
        outcomes.len() >= steps_left(step) ==> restart_run(step, outcomes) is Over,
        restart_wait(step, outcomes) <= wait_left(step),
    decreases outcomes.len(),
{
    if outcomes.len() > 0 {
        lemma_restart_bounds(restart_after(step, outcomes[0]), outcomes.drop_first());
    }
}

/// A restart is over after at most fifteen steps, whatever they come to, and has
/// by then waited for at most 92 seconds.
pub proof fn law_a_restart_ends(outcomes: Seq<bool>)
    ensures
        outcomes.len() >= 15 ==> restart_run(RestartStep::Terminate, outcomes) is Over,
        restart_wait(RestartStep::Terminate, outcomes) <= 92,
{
    lemma_restart_bounds(RestartStep::Terminate, outcomes);
}

/// A restart counts as a recovery only where a probe was answered.
pub proof fn law_only_an_answered_probe_recovers(step: RestartStep, succeeded: bool)
    requires
        step != RestartStep::Over(true),
        restart_after(step, succeeded) == RestartStep::Over(true),
    ensures
        step is Probe,
        succeeded,
{
}

// ---------------------------------------------------------------------------
// What a look comes to
// ---------------------------------------------------------------------------

/// A distribution that answers leaves only its history: when it was last heard,
/// when it was restarted and when it recovered. Nothing more is to be done.
pub proof fn law_an_answer_leaves_only_history(tracker: TrackerView, facts: HostFacts)
    requires
        facts.answered,
    ensures
        ({
            let moved = begun(tracker, facts);
            let now = moved.watching.tracker;
            &&& moved.watching.step == WatchStep::Observed
            &&& now.failures == 0 && now.first_failure is None && now.generation is None
            &&& !now.fence_held && now.zero_heartbeats == 0 && now.zero_inventory_reads == 0
            &&& now.last_heartbeat == tracker.last_heartbeat
            &&& now.recovery_attempts == tracker.recovery_attempts
            &&& now.last_recovered_at == tracker.last_recovered_at
            &&& moved.cleared == tracker.generation
            &&& moved.published matches Some(said) && said.phase == RecoveryPhase::Healthy
                && said.consecutive_probe_failures == 0 && said.reason is None
                && said.last_recovered_at == tracker.last_recovered_at
        }),
{
}

/// A distribution that does not answer is one failure further on, since the
/// first of them, under one drain that is numbered by its time; and the look
/// begins by writing the request for that drain, with nothing cleared, published
/// or known yet.
pub proof fn law_silence_is_counted_and_asks_for_a_drain(tracker: TrackerView, facts: HostFacts)
    requires
        !facts.answered,
    ensures
        ({
            let moved = begun(tracker, facts);
            let now = moved.watching.tracker;
            &&& moved.watching.step == WatchStep::Request
            &&& tracker.failures < u8::MAX ==> now.failures == tracker.failures + 1
            &&& tracker.failures == u8::MAX ==> now.failures == u8::MAX
            &&& tracker.first_failure is None ==> now.first_failure == Some(facts.instant)
            &&& tracker.first_failure is Some ==> now.first_failure == tracker.first_failure
            &&& tracker.generation is Some ==> now.generation == tracker.generation
            &&& tracker.generation is None && facts.millis > 0 ==> now.generation == Some(
                facts.millis as u64,
            )
            &&& tracker.generation is None && facts.millis <= 0 ==> now.generation == Some(1u64)
            &&& now.fence_held == tracker.fence_held
            &&& now.last_heartbeat == tracker.last_heartbeat
            &&& now.zero_heartbeats == tracker.zero_heartbeats
            &&& now.zero_inventory_reads == tracker.zero_inventory_reads
            &&& now.recovery_attempts == tracker.recovery_attempts
            &&& now.last_recovered_at == tracker.last_recovered_at
            &&& moved.cleared is None && moved.published is None
            &&& moved.watching.heartbeat is None && moved.watching.inventory is None
            &&& moved.watching.evidence is None
        }),
{
}

/// The lifecycle task counts only where it is registered, this product's and
/// enabled, and the distribution only where its one version is 2; both stay as
/// they were found for the whole look.
pub proof fn law_the_task_and_the_version_are_taken_as_found(
    tracker: TrackerView,
    facts: HostFacts,
    watching: WatchingView,
    event: WatchEvent,
)
    ensures
        begun(tracker, facts).watching.task_owned <==> (facts.task is Some
            && facts.task->0.product_owned && facts.task->0.enabled),
        begun(tracker, facts).watching.distribution_is_wsl2 <==> facts.wsl_version == Some(2u8),
        observed_after(watching, event).watching.task_owned == watching.task_owned,
        observed_after(watching, event).watching.distribution_is_wsl2
            == watching.distribution_is_wsl2,
{
}

/// The runners on the pages, one after the other.
pub open spec fn runners_on(pages: Seq<Option<InventoryPage>>) -> Seq<ListedRunner>
    decreases pages.len(),
{
    if pages.len() == 0 {
        Seq::empty()
    } else {
        runners_on(pages.drop_last()) + (match pages.last() {
            Some(page) => page.runners@,
            None => Seq::empty(),
        })
    }
}

/// A number kept within 32 bits.
pub open spec fn within_u32(number: u32, n: nat) -> bool {
    number == n || (n > u32::MAX && number == u32::MAX)
}

/// The runners of this product that are at work.
pub open spec fn busy_runners(runners: Seq<ListedRunner>) -> Seq<ListedRunner> {
    runners.filter(|r: ListedRunner| r.busy && "runner-manager-"@.is_prefix_of(r.name@))
}

/// The runners of this product that are connected.
pub open spec fn online_runners(runners: Seq<ListedRunner>) -> Seq<ListedRunner> {
    runners.filter(|r: ListedRunner| r.online && "runner-manager-"@.is_prefix_of(r.name@))
}

/// What is counted on the runners is the length of what is picked out of them.
proof fn lemma_counted_runners(runners: Seq<ListedRunner>)
    ensures
        runners_counted(runners, true) == busy_runners(runners).len(),
        runners_counted(runners, false) == online_runners(runners).len(),
    decreases runners.len(),
{
    reveal(Seq::filter);
    if runners.len() > 0 {
        lemma_counted_runners(runners.drop_last());
    }
}

/// Runners are picked out of two lists as out of their concatenation.
proof fn lemma_counted_apart(left: Seq<ListedRunner>, right: Seq<ListedRunner>, busy: bool)
    ensures
        runners_counted(left + right, busy) == runners_counted(left, busy) + runners_counted(
            right,
            busy,
        ),
    decreases right.len(),
{
    if right.len() == 0 {
        assert(left + right == left);
    } else {
        assert((left + right).drop_last() == left + right.drop_last());
        lemma_counted_apart(left, right.drop_last(), busy);
    }
}

/// What is counted on the pages is counted on all their runners.
proof fn lemma_counted_pages(pages: Seq<Option<InventoryPage>>, busy: bool)
    ensures
        pages_counted(pages, busy) == runners_counted(runners_on(pages), busy),
    decreases pages.len(),
{
    if pages.len() > 0 {
        lemma_counted_pages(pages.drop_last(), busy);
        let last = match pages.last() {
            Some(page) => page.runners@,
            None => Seq::empty(),
        };
        lemma_counted_apart(runners_on(pages.drop_last()), last, busy);
    }
}

/// A list out of which nothing is picked holds nothing that would be.
proof fn lemma_nothing_picked(runners: Seq<ListedRunner>)
    ensures
        busy_runners(runners).len() == 0 ==> forall|i: int|
            0 <= i < runners.len() && #[trigger] runners[i].busy ==> !"runner-manager-"@.is_prefix_of(
                runners[i].name@,
            ),
        online_runners(runners).len() == 0 ==> forall|i: int|
            0 <= i < runners.len() && #[trigger] runners[i].online ==> !"runner-manager-"@.is_prefix_of(
                runners[i].name@,
            ),
    decreases runners.len(),
{
    reveal(Seq::filter);
    if runners.len() > 0 {
        let rest = runners.drop_last();
        lemma_nothing_picked(rest);
        assert forall|i: int| 0 <= i < runners.len() && #[trigger] runners[i].busy
            && busy_runners(runners).len() == 0 implies !"runner-manager-"@.is_prefix_of(
            runners[i].name@,
        ) by {
            if i < rest.len() {
                assert(rest[i].busy);
            }
        }
        assert forall|i: int| 0 <= i < runners.len() && #[trigger] runners[i].online
            && online_runners(runners).len() == 0 implies !"runner-manager-"@.is_prefix_of(
            runners[i].name@,
        ) by {
            if i < rest.len() {
                assert(rest[i].online);
            }
        }
    }
}

/// The inventory that a look keeps is the number of this product's runners that
/// are busy, and of those that are online, on all the pages together; it is
/// unknown exactly where a page is not there, truncated or of a missing target.
/// An inventory with neither counts towards the proof of idleness, and every
/// other one, an unknown one included, starts that proof again. The evidence
/// that is then weighed says the same.
pub proof fn law_the_inventory_counts_this_products_runners(
    watching: WatchingView,
    pages: Vec<Option<InventoryPage>>,
    utc: Moment,
    instant: u64,
)
    requires
        watching.step == WatchStep::ReadInventory,
    ensures
        ({
            let read = observed_after(watching, WatchEvent::Listed(pages)).watching;
            let evidence = observed_after(
                read,
                WatchEvent::Clock { utc, instant },
            ).watching.evidence;
            let runners = runners_on(pages@);
            let known = forall|i: int|
                0 <= i < pages@.len() ==> (#[trigger] pages@[i] matches Some(page)
                    && !page.truncated && !page.missing);
            let idle = known && busy_runners(runners).len() == 0 && online_runners(runners).len()
                == 0;
            let before = watching.tracker.zero_inventory_reads;
            let after = read.tracker.zero_inventory_reads;
            &&& read.step == WatchStep::Weigh
            &&& read.inventory is Some <==> known
            &&& read.inventory matches Some(counts) ==> within_u32(
                counts.0,
                busy_runners(runners).len(),
            ) && within_u32(counts.1, online_runners(runners).len())
            &&& idle && before < u8::MAX ==> after == before + 1
            &&& idle && before == u8::MAX ==> after == u8::MAX
            &&& !idle ==> after == 0
            &&& evidence matches Some(said) && said.inventory_authorized == known
                && said.consecutive_zero_inventory_reads == after && (read.inventory matches Some(
                counts,
            ) ==> said.managed_busy_runners == Some(counts.0) && said.managed_online_registrations
                == Some(counts.1)) && (!known
                ==> said.managed_busy_runners is None && said.managed_online_registrations is None)
        }),
{
    lemma_counted_pages(pages@, true);
    lemma_counted_pages(pages@, false);
    lemma_counted_runners(runners_on(pages@));
    let known = forall|i: int|
        0 <= i < pages@.len() ==> (#[trigger] pages@[i] matches Some(page) && !page.truncated
            && !page.missing);
    if known {
        assert(forall|i: int| 0 <= i < pages@.len() ==> is_complete(#[trigger] pages@[i]));
    } else {
        let i = choose|i: int|
            0 <= i < pages@.len() && !(#[trigger] pages@[i] matches Some(page) && !page.truncated
                && !page.missing);
        assert(!is_complete(pages@[i]));
    }
}

/// A distribution is presented as having no work left only where the inventory
/// shows none: a runner of this product that is busy or online on any page keeps
/// the counts above zero.
pub proof fn law_a_runner_at_work_is_never_hidden(
    watching: WatchingView,
    pages: Vec<Option<InventoryPage>>,
    i: int,
)
    requires
        watching.step == WatchStep::ReadInventory,
        0 <= i < runners_on(pages@).len(),
        "runner-manager-"@.is_prefix_of(runners_on(pages@)[i].name@),
    ensures
        ({
            let read = observed_after(watching, WatchEvent::Listed(pages)).watching;
            let runner = runners_on(pages@)[i];
            &&& runner.busy ==> (read.inventory matches Some(counts) ==> counts.0 > 0)
            &&& runner.online ==> (read.inventory matches Some(counts) ==> counts.1 > 0)
            &&& runner.busy || runner.online ==> read.tracker.zero_inventory_reads == 0
        }),
{
    lemma_counted_pages(pages@, true);
    lemma_counted_pages(pages@, false);
    lemma_counted_runners(runners_on(pages@));
    lemma_nothing_picked(runners_on(pages@));
}

/// A heartbeat is kept as it was heard. A new one that acknowledges this drain
/// with no attempt left is one more towards the proof of idleness; any other new
/// one, and none at all, starts that proof again; and the same one again changes
/// nothing. Runners are listed only where there is a heartbeat.
pub proof fn law_only_a_new_idle_heartbeat_counts(
    watching: WatchingView,
    heartbeat: Option<Heartbeat>,
)
    requires
        watching.step == WatchStep::ReadHeartbeat,
        watching.tracker.generation is Some,
    ensures
        ({
            let next = observed_after(watching, WatchEvent::Heard(heartbeat)).watching;
            let before = watching.tracker.zero_heartbeats;
            let after = next.tracker.zero_heartbeats;
            &&& next.heartbeat == heartbeat
            &&& heartbeat is Some ==> next.step == WatchStep::ReadInventory
            &&& heartbeat is None ==> next.step == WatchStep::Weigh && after == 0
                && next.tracker.last_heartbeat == watching.tracker.last_heartbeat
            &&& heartbeat matches Some(beat) ==> {
                let new = watching.tracker.last_heartbeat != Some(beat.observed_at);
                let idle = beat.acknowledged_generation == watching.tracker.generation
                    && beat.local_active_attempts == Some(0u32);
                &&& next.tracker.last_heartbeat == Some(beat.observed_at)
                &&& !new ==> after == before
                &&& new && !idle ==> after == 0
                &&& new && idle && before < u8::MAX ==> after == before + 1
                &&& new && idle && before == u8::MAX ==> after == u8::MAX
            }
        }),
{
}

/// The fence is this drain's only where it was claimed, held before, or is held
/// by the recovery of this very drain. A look goes on to the heartbeat either
/// way, and a fence that is held is not claimed again.
pub proof fn law_the_fence_is_this_drains(watching: WatchingView, event: WatchEvent)
    requires
        watching.tracker.generation is Some,
    ensures
        ({
            let next = observed_after(watching, event).watching;
            &&& watching.step == WatchStep::Request && event is Done ==> next.step == (
            if watching.tracker.fence_held {
                WatchStep::ReadHeartbeat
            } else {
                WatchStep::Claim
            })
            &&& watching.step == WatchStep::Claim && (event is Done || event is Held
                || event is Failed) ==> next.step == WatchStep::ReadHeartbeat
            &&& watching.step == WatchStep::Claim && event is Done ==> next.tracker.fence_held
            &&& watching.step == WatchStep::Claim ==> (event matches WatchEvent::Held {
                by_recovery,
                generation,
            } ==> (next.tracker.fence_held <==> by_recovery && generation
                == watching.tracker.generation))
            &&& watching.step == WatchStep::Claim && event is Failed ==> next.tracker.fence_held
                == watching.tracker.fence_held
            &&& watching.step != WatchStep::Claim && watching.step != WatchStep::Recover
                ==> next.tracker.fence_held == watching.tracker.fence_held
        }),
{
}

/// The restarts of the last hour, with the recoveries in the order they
/// happened.
pub open spec fn restarts_within_the_hour(attempts: Seq<u64>, instant: u64) -> Seq<u64> {
    attempts.filter(|at: u64| instant - at <= 3_600_000_000_000)
}

/// In order, the recoveries that are remembered are those of the last hour.
proof fn lemma_recent_are_within_the_hour(attempts: Seq<u64>, instant: u64)
    requires
        forall|i: int, j: int| 0 <= i <= j < attempts.len() ==> attempts[i] <= attempts[j],
    ensures
        recent(attempts, instant) == restarts_within_the_hour(attempts, instant),
    decreases attempts.len(),
{
    let pred = |at: u64| instant - at <= 3_600_000_000_000;
    law_the_circuit_remembers_the_last_hour(attempts, instant);
    let kept = recent(attempts, instant);
    let gone = attempts.len() - kept.len();
    let old = attempts.take(gone);
    assert(attempts == old + kept);
    Seq::filter_distributes_over_add(old, kept, pred);
    lemma_none_kept(old, instant);
    lemma_all_kept(kept, instant);
    assert(attempts.filter(pred) == kept);
}

/// Nothing is kept of what is over an hour old.
proof fn lemma_none_kept(attempts: Seq<u64>, instant: u64)
    requires
        forall|i: int|
            0 <= i < attempts.len() ==> instant - #[trigger] attempts[i] > 3_600_000_000_000,
    ensures
        restarts_within_the_hour(attempts, instant).len() == 0,
    decreases attempts.len(),
{
    reveal(Seq::filter);
    if attempts.len() > 0 {
        let rest = attempts.drop_last();
        assert forall|i: int| 0 <= i < rest.len() implies instant - #[trigger] rest[i]
            > 3_600_000_000_000 by {
            assert(rest[i] == attempts[i]);
        }
        lemma_none_kept(rest, instant);
    }
}

/// Everything is kept of what is within the hour.
proof fn lemma_all_kept(attempts: Seq<u64>, instant: u64)
    requires
        forall|i: int|
            0 <= i < attempts.len() ==> instant - #[trigger] attempts[i] <= 3_600_000_000_000,
    ensures
        restarts_within_the_hour(attempts, instant) == attempts,
    decreases attempts.len(),
{
    reveal(Seq::filter);
    if attempts.len() > 0 {
        let rest = attempts.drop_last();
        assert forall|i: int| 0 <= i < rest.len() implies instant - #[trigger] rest[i]
            <= 3_600_000_000_000 by {
            assert(rest[i] == attempts[i]);
        }
        lemma_all_kept(rest, instant);
        assert(rest.push(attempts.last()) == attempts);
    }
}

/// The evidence is what the look found, and nothing else: how often and how long
/// the distribution has been silent, the drain and what the last heartbeat says
/// of it, the two proofs of idleness, the task, the version, the fence, and
/// whether three restarts fell into the last hour. Restarts that are older are
/// forgotten, and nothing else is.
pub proof fn law_the_evidence_is_what_was_found(
    watching: WatchingView,
    utc: Moment,
    instant: u64,
)
    requires
        watching.step == WatchStep::Weigh,
        watching.tracker.generation is Some,
        watching.tracker.first_failure is Some,
        watching.tracker.first_failure->0 <= instant,
        forall|i: int, j: int|
            0 <= i <= j < watching.tracker.recovery_attempts.len()
                ==> watching.tracker.recovery_attempts[i]
                <= watching.tracker.recovery_attempts[j],
    ensures
        ({
            let moved = observed_after(watching, WatchEvent::Clock { utc, instant });
            let next = moved.watching;
            let tracker = watching.tracker;
            let within = restarts_within_the_hour(tracker.recovery_attempts, instant);
            &&& next.step == WatchStep::Decide && moved.cleared is None && moved.published is None
            &&& next.tracker == (TrackerView { recovery_attempts: within, ..tracker })
            &&& next.heartbeat == watching.heartbeat && next.inventory == watching.inventory
            &&& next.evidence matches Some(said) && {
                &&& said.consecutive_probe_failures == tracker.failures
                &&& tracker.first_failure->0 + said.failure_span == instant
                &&& said.failure_is_recoverable
                &&& Some(said.drain_generation) == tracker.generation
                &&& said.consecutive_zero_attempt_heartbeats == tracker.zero_heartbeats
                &&& said.consecutive_zero_inventory_reads == tracker.zero_inventory_reads
                &&& said.task_is_product_owned == watching.task_owned
                &&& said.distribution_is_wsl2 == watching.distribution_is_wsl2
                &&& said.recovery_fence_held == tracker.fence_held
                &&& said.circuit_open <==> within.len() >= 3
                &&& said.inventory_authorized <==> watching.inventory is Some
                &&& watching.heartbeat is None ==> said.acknowledged_generation is None
                    && said.heartbeat_age is None && said.local_active_attempts is None
                    && said.unmanaged_runner_services is None
                &&& watching.heartbeat matches Some(beat) ==> said.acknowledged_generation
                    == beat.acknowledged_generation && said.local_active_attempts
                    == beat.local_active_attempts && said.unmanaged_runner_services
                    == beat.unmanaged_runner_services && said.heartbeat_age == time_since(
                    utc.seconds as int,
                    utc.nanos as int,
                    beat.observed_at.seconds as int,
                    beat.observed_at.nanos as int,
                )
            }
        }),
{
    lemma_recent_are_within_the_hour(watching.tracker.recovery_attempts, instant);
}

/// Each decision is followed: only the one to terminate restarts anything, and
/// is remembered with its instant; every other one ends the look with the
/// tracker as it was, and says why.
pub proof fn law_a_decision_is_followed(
    watching: WatchingView,
    decision: RecoveryDecision,
    instant: u64,
)
    requires
        watching.step == WatchStep::Decide,
    ensures
        ({
            let moved = observed_after(watching, WatchEvent::Decided { decision, instant });
            let next = moved.watching;
            &&& moved.cleared is None
            &&& moved.published matches Some(said) && said.consecutive_probe_failures
                == watching.tracker.failures && said.last_recovered_at
                == watching.tracker.last_recovered_at
            &&& decision is TerminateNamed ==> next.step == WatchStep::Recover
                && moved.published->0.phase == RecoveryPhase::Recovering
                && moved.published->0.reason is None && next.tracker == (TrackerView {
                recovery_attempts: watching.tracker.recovery_attempts.push(instant),
                ..watching.tracker
            })
            &&& !(decision is TerminateNamed) ==> next.step == WatchStep::Observed && next.tracker
                == watching.tracker
            &&& decision is Observe ==> moved.published->0.phase == RecoveryPhase::Degraded
                && moved.published->0.reason == Some(
                "waiting for the bounded failure threshold"@,
            )
            &&& decision is RequestDrain ==> moved.published->0.phase == RecoveryPhase::Draining
                && moved.published->0.reason == Some(
                "waiting for the guest drain acknowledgement"@,
            )
            &&& decision matches RecoveryDecision::Blocked(reason) ==> moved.published->0.phase
                == RecoveryPhase::RecoveryBlocked && moved.published->0.reason == Some(reason@)
        }),
{
}

/// A restart that brings the distribution back clears its drain and leaves only
/// history, with the moment of the recovery; one that does not keeps everything
/// that was suspected, so that the next look goes on from there.
pub proof fn law_only_a_recovery_ends_the_drain(
    watching: WatchingView,
    answers: bool,
    utc: Moment,
)
    requires
        watching.step == WatchStep::Recover,
        watching.tracker.generation is Some,
    ensures
        ({
            let moved = observed_after(watching, WatchEvent::Recovered { answers, utc });
            let now = moved.watching.tracker;
            &&& moved.watching.step == WatchStep::Observed
            &&& answers ==> {
                &&& moved.cleared == watching.tracker.generation
                &&& now.failures == 0 && now.first_failure is None && now.generation is None
                &&& !now.fence_held && now.zero_heartbeats == 0 && now.zero_inventory_reads == 0
                &&& now.last_recovered_at == Some(utc)
                &&& now.recovery_attempts == watching.tracker.recovery_attempts
                &&& now.last_heartbeat == watching.tracker.last_heartbeat
                &&& moved.published matches Some(said) && said.phase == RecoveryPhase::Healthy
                    && said.consecutive_probe_failures == 0 && said.reason is None
                    && said.last_recovered_at == Some(utc)
            }
            &&& !answers ==> {
                &&& moved.cleared is None
                &&& now == watching.tracker
                &&& moved.published matches Some(said) && said.phase == RecoveryPhase::Backoff
                    && said.consecutive_probe_failures == watching.tracker.failures
                    && said.last_recovered_at == watching.tracker.last_recovered_at
                    && said.reason == Some(
                    "the named distribution did not become healthy after recovery"@,
                )
            }
        }),
{
}

/// A drain that cannot be asked for blocks the recovery, and says so.
pub proof fn law_an_unwritten_request_blocks(watching: WatchingView)
    requires
        watching.step == WatchStep::Request,
    ensures
        ({
            let moved = observed_after(watching, WatchEvent::Failed);
            &&& moved.watching.step == WatchStep::Observed
            &&& moved.watching.tracker == watching.tracker
            &&& moved.cleared is None
            &&& moved.published matches Some(said) && said.phase == RecoveryPhase::RecoveryBlocked
                && said.consecutive_probe_failures == watching.tracker.failures
                && said.last_recovered_at == watching.tracker.last_recovered_at && said.reason
                == Some("the drain request cannot be written"@)
        }),
{
}

/// A look that is still finding out clears and publishes nothing, and forgets
/// nothing of how long the distribution has been silent.
pub proof fn law_finding_out_is_silent(watching: WatchingView, event: WatchEvent)
    requires
        watching.step == WatchStep::Claim || watching.step == WatchStep::ReadHeartbeat
            || watching.step == WatchStep::ReadInventory || watching.step == WatchStep::Weigh || (
        watching.step == WatchStep::Request && event is Done),
    ensures
        ({
            let moved = observed_after(watching, event);
            let now = moved.watching.tracker;
            &&& moved.cleared is None && moved.published is None
            &&& moved.watching.step != WatchStep::Observed && moved.watching.step
                != WatchStep::Recover
            &&& now.failures == watching.tracker.failures
            &&& now.first_failure == watching.tracker.first_failure
            &&& now.generation == watching.tracker.generation
            &&& now.last_recovered_at == watching.tracker.last_recovered_at
            &&& watching.step != WatchStep::Weigh ==> now.recovery_attempts
                == watching.tracker.recovery_attempts && moved.watching.evidence
                == watching.evidence
            &&& watching.step != WatchStep::ReadHeartbeat ==> now.zero_heartbeats
                == watching.tracker.zero_heartbeats && now.last_heartbeat
                == watching.tracker.last_heartbeat && moved.watching.heartbeat
                == watching.heartbeat
            &&& watching.step != WatchStep::ReadInventory ==> now.zero_inventory_reads
                == watching.tracker.zero_inventory_reads && moved.watching.inventory
                == watching.inventory
        }),
{
}

/// A restart succeeds exactly where the distribution was terminated and one of
/// six probes was answered, whether or not its task could be started.
pub proof fn law_a_restart_is_judged_by_its_probes(outcomes: Seq<bool>)
    requires
        outcomes.len() == 15,
    ensures
        restart_run(RestartStep::Terminate, outcomes) == RestartStep::Over(
            outcomes[0] && (outcomes[4] || outcomes[6] || outcomes[8] || outcomes[10]
                || outcomes[12] || outcomes[14]),
        ),
{
    lemma_run_step(RestartStep::Terminate, outcomes, 0);
    lemma_run_step(restart_after(RestartStep::Terminate, outcomes[0]), outcomes, 1);
    if outcomes[0] {
        lemma_run_step(RestartStep::StartTask, outcomes, 2);
        lemma_run_step(RestartStep::Pause(0), outcomes, 3);
        lemma_probe(outcomes, 0);
        assert(outcomes[4] ==> outcomes[4 + 2 * 0int]);
        assert(outcomes[6] ==> outcomes[4 + 2 * 1int]);
        assert(outcomes[8] ==> outcomes[4 + 2 * 2int]);
        assert(outcomes[10] ==> outcomes[4 + 2 * 3int]);
        assert(outcomes[12] ==> outcomes[4 + 2 * 4int]);
        assert(outcomes[14] ==> outcomes[4 + 2 * 5int]);
    } else {
        lemma_over_stays(false, outcomes.skip(1));
    }
    assert(outcomes.skip(0) == outcomes);
}

/// The probe of this number and what follows it.
proof fn lemma_probe(outcomes: Seq<bool>, probe: u8)
    requires
        outcomes.len() == 15,
        probe < 6,
    ensures
        restart_run(RestartStep::Probe(probe), outcomes.skip(4 + 2 * probe)) == RestartStep::Over(
            exists|k: int| probe <= k < 6 && #[trigger] outcomes[4 + 2 * k],
        ),
    decreases 6 - probe,
{
    let at = 4 + 2 * probe;
    lemma_run_step(RestartStep::Probe(probe), outcomes, at);
    if outcomes[at] {
        lemma_over_stays(true, outcomes.skip(at + 1));
        assert(outcomes[4 + 2 * (probe as int)]);
    } else if probe < 5 {
        lemma_run_step(RestartStep::Pause((probe + 1) as u8), outcomes, at + 1);
        lemma_probe(outcomes, (probe + 1) as u8);
        assert forall|k: int| probe <= k < 6 && #[trigger] outcomes[4 + 2 * k] implies probe < k by {
            assert(k != probe);
        }
    } else {
        lemma_over_stays(false, outcomes.skip(at + 1));
    }
}

/// One step of a run.
proof fn lemma_run_step(step: RestartStep, outcomes: Seq<bool>, at: int)
    requires
        0 <= at < outcomes.len(),
    ensures
        restart_run(step, outcomes.skip(at)) == restart_run(
            restart_after(step, outcomes[at]),
            outcomes.skip(at + 1),
        ),
{
    assert(outcomes.skip(at)[0] == outcomes[at]);
    assert(outcomes.skip(at).drop_first() == outcomes.skip(at + 1));
}

/// What is over stays over.
proof fn lemma_over_stays(answers: bool, outcomes: Seq<bool>)
    ensures
        restart_run(RestartStep::Over(answers), outcomes) == RestartStep::Over(answers),
    decreases outcomes.len(),
{
    if outcomes.len() > 0 {
        lemma_over_stays(answers, outcomes.drop_first());
    }
}

/// A restart lets the distribution settle for two seconds, and waits 2, 4, 8, 16,
/// 30 and 30 seconds before its six probes; no other step waits.
pub proof fn law_the_probes_come_at_growing_distances()
    ensures
        pause_of(RestartStep::Settle) == 2,
        pause_of(RestartStep::Pause(0)) == 2,
        pause_of(RestartStep::Pause(1)) == 4,
        pause_of(RestartStep::Pause(2)) == 8,
        pause_of(RestartStep::Pause(3)) == 16,
        pause_of(RestartStep::Pause(4)) == 30,
        pause_of(RestartStep::Pause(5)) == 30,
        forall|step: RestartStep|
            !(step is Settle) && !(step is Pause) ==> #[trigger] pause_of(step) == 0,
{
}

/// A look is of the drain that its tracker has, and of none, which is the number
/// zero, where it has none.
pub proof fn law_a_look_is_of_its_drain(tracker: TrackerView)
    ensures
        tracker.generation matches Some(number) ==> drain_of(tracker) == number,
        tracker.generation is None ==> drain_of(tracker) == 0,
{
}

} // verus!
