//! Where runners work: the host's runner root, each repository's workspace, and
//! the changes to either.
//!
//! A change goes in one order. The attempts that still own the directory are
//! counted, and any at all refuse it. The new path is validated without
//! touching anything. At most one leaf is created. Then the new value is
//! written behind a fence, and what was left in place is named.

use vstd::prelude::*;

use crate::failure;
use crate::failure::{CliError, ErrorView, Failure};
use crate::text;
use crate::text::{copy_optional, push_decimal, same_text};

verus! {

// ---------------------------------------------------------------------------
// The trust warning
// ---------------------------------------------------------------------------

/// What is said before a persistent workspace is relied on, one line each.
pub const PERSISTENT_TRUST_WARNING: [&'static str; 7] = [
    "warning: a persistent workspace is a trusted-workflow optimization, not isolation.",
    "  - files under _work are an input to later jobs on the same slot;",
    "  - executable and generated content can cross branch and job boundaries;",
    "  - do not enable it for untrusted fork or pull-request workflows;",
    "  - changing or disabling persistence does not delete old directories;",
    "  - `actions/checkout` still cleans the workspace, including Git-ignored files,",
    "    unless the workflow sets `clean: false`.",
];

/// The trust warning as it is written.
pub open spec fn trust_warning_text() -> Seq<char> {
    PERSISTENT_TRUST_WARNING[0]@ + "\n"@ + PERSISTENT_TRUST_WARNING[1]@ + "\n"@
        + PERSISTENT_TRUST_WARNING[2]@ + "\n"@ + PERSISTENT_TRUST_WARNING[3]@ + "\n"@
        + PERSISTENT_TRUST_WARNING[4]@ + "\n"@ + PERSISTENT_TRUST_WARNING[5]@ + "\n"@
        + PERSISTENT_TRUST_WARNING[6]@ + "\n"@
}

/// Writes the trust warning.
pub fn write_trust_warning(out: &mut String)
    ensures
        final(out)@ == old(out)@ + trust_warning_text(),
{
    let lines = PERSISTENT_TRUST_WARNING;
    let mut said = lines[0].to_owned();
    said.append("\n");
    said.append(lines[1]);
    said.append("\n");
    said.append(lines[2]);
    said.append("\n");
    said.append(lines[3]);
    said.append("\n");
    said.append(lines[4]);
    said.append("\n");
    said.append(lines[5]);
    said.append("\n");
    said.append(lines[6]);
    said.append("\n");
    out.append(said.as_str());
}

// ---------------------------------------------------------------------------
// Where a root came from
// ---------------------------------------------------------------------------

/// Whether the host's runner root is the operator's or the platform's.
#[derive(Debug, Clone, Copy, PartialEq, Eq, Structural)]
pub enum RootSource {
    /// No override is stored.
    PlatformDefault,
    /// An operator stored one.
    Configured,
}

impl RootSource {
    /// The badge a person reads.
    pub open spec fn badge(self) -> Seq<char> {
        match self {
            RootSource::PlatformDefault => "platform-default"@,
            RootSource::Configured => "configured"@,
        }
    }

    /// The badge a person reads.
    pub fn as_str(self) -> (badge: &'static str)
        ensures
            badge@ == self.badge(),
    {
        match self {
            RootSource::PlatformDefault => "platform-default",
            RootSource::Configured => "configured",
        }
    }

    /// The token a script reads.
    pub open spec fn token(self) -> Seq<char> {
        match self {
            RootSource::PlatformDefault => "platform_default"@,
            RootSource::Configured => "configured"@,
        }
    }

    /// The token a script reads.
    pub fn as_token(self) -> (token: &'static str)
        ensures
            token@ == self.token(),
    {
        match self {
            RootSource::PlatformDefault => "platform_default",
            RootSource::Configured => "configured",
        }
    }
}

/// The effective host runner root, and where it came from.
#[derive(Debug, Clone)]
pub struct HostRoot {
    /// The stored override; `None` means the platform default.
    pub configured: Option<String>,
    /// The path attempts are created under.
    pub effective: Option<String>,
    /// Why the platform default could not be resolved, when it could not.
    pub unavailable: Option<String>,
}

impl HostRoot {
    /// Where the root came from.
    pub open spec fn root_source(self) -> RootSource {
        if self.configured is Some {
            RootSource::Configured
        } else {
            RootSource::PlatformDefault
        }
    }

    /// Where the root came from.
    pub fn source(&self) -> (source: RootSource)
        ensures
            source == self.root_source(),
    {
        if self.configured.is_some() {
            RootSource::Configured
        } else {
            RootSource::PlatformDefault
        }
    }

    /// The effective path, when there is one.
    pub fn effective_text(&self) -> (root: Option<&str>)
        ensures
            match root {
                Some(path) => text::opt_text(self.effective) == Some(path@),
                None => self.effective is None,
            },
    {
        match &self.effective {
            Some(path) => Some(path.as_str()),
            None => None,
        }
    }

    /// The effective path as it is shown, or why there is none.
    pub open spec fn shown(self) -> Seq<char> {
        match (self.effective, self.unavailable) {
            (Some(root), _) => root@,
            (None, Some(reason)) => "unavailable ("@ + reason@ + ")"@,
            (None, None) => "unavailable"@,
        }
    }

    /// The effective path, with the reason it is missing when it is.
    pub fn rendered(&self) -> (shown: String)
        ensures
            shown@ == self.shown(),
    {
        match (&self.effective, &self.unavailable) {
            (Some(root), _) => root.clone(),
            (None, Some(reason)) => {
                let mut shown = "unavailable (".to_owned();
                shown.append(reason.as_str());
                shown.append(")");
                shown
            },
            (None, None) => "unavailable".to_owned(),
        }
    }

    /// An exact copy.
    pub fn duplicate(&self) -> (copy: HostRoot)
        ensures
            copy == *self,
    {
        HostRoot {
            configured: copy_optional(&self.configured),
            effective: copy_optional(&self.effective),
            unavailable: copy_optional(&self.unavailable),
        }
    }
}

/// The root of a host with this override, where the platform default resolves
/// like this.
pub open spec fn root_of(configured: Option<String>, default: Result<String, String>) -> HostRoot {
    match (configured, default) {
        (Some(root), _) => HostRoot {
            configured: Some(root),
            effective: Some(root),
            unavailable: None,
        },
        (None, Ok(root)) => HostRoot {
            configured: None,
            effective: Some(root),
            unavailable: None,
        },
        (None, Err(reason)) => HostRoot {
            configured: None,
            effective: None,
            unavailable: Some(reason),
        },
    }
}

/// Resolves the effective host runner root from the stored override and from
/// what the platform default resolves to.
pub fn host_root(configured: Option<String>, default: Result<String, String>) -> (root: HostRoot)
    ensures
        root == root_of(configured, default),
{
    match (configured, default) {
        (Some(root), _) => HostRoot {
            effective: Some(root.clone()),
            configured: Some(root),
            unavailable: None,
        },
        (None, Ok(root)) => HostRoot {
            configured: None,
            effective: Some(root),
            unavailable: None,
        },
        (None, Err(reason)) => HostRoot {
            configured: None,
            effective: None,
            unavailable: Some(reason),
        },
    }
}

/// A configured root is always usable as it stands: it is its own effective
/// value.
pub proof fn law_a_configured_root_is_effective(
    configured: Option<String>,
    default: Result<String, String>,
)
    requires
        configured is Some,
    ensures
        root_of(configured, default).effective == configured,
        root_of(configured, default).shown() == configured->0@,
{
}

// ---------------------------------------------------------------------------
// Affected attempts
// ---------------------------------------------------------------------------

/// What is read of one attempt that has not been cleaned up.
#[derive(Debug, Clone)]
pub struct RunnerAttempt {
    pub id: String,
    pub state: String,
    /// It has concluded. Until then it counts against the host's capacity.
    pub terminal: bool,
    /// The workspace slot it leases, if it leases one.
    pub slot: Option<u16>,
}

/// The two counts that a path change is refused behind.
#[derive(Debug, Clone, Copy, PartialEq, Eq, Structural)]
pub struct AffectedAttempts {
    /// Still running: occupying the host's capacity.
    pub active: u16,
    /// Concluded and not cleaned up: still owning a directory.
    pub cleanup_blocked: u16,
}

impl Default for AffectedAttempts {
    fn default() -> (none: AffectedAttempts)
        ensures
            none.active == 0,
            none.cleanup_blocked == 0,
    {
        AffectedAttempts { active: 0, cleanup_blocked: 0 }
    }
}

/// A count, as far as 16 bits hold it.
pub open spec fn saturated(count: int) -> int {
    if count <= u16::MAX {
        count
    } else {
        u16::MAX as int
    }
}

/// How many attempts have concluded (`terminal`) or have not.
pub open spec fn count_attempts(attempts: Seq<RunnerAttempt>, terminal: bool) -> nat
    decreases attempts.len(),
{
    if attempts.len() == 0 {
        0
    } else {
        count_attempts(attempts.drop_last(), terminal) + if attempts.last().terminal == terminal {
            1nat
        } else {
            0nat
        }
    }
}

/// The sentence that refuses a change behind these counts.
pub open spec fn refusal_text(subject: Seq<char>, affected: AffectedAttempts) -> Seq<char> {
    subject + " cannot change while attempts still own it: "@ + text::decimal(
        affected.active as nat,
    ) + " active and "@ + text::decimal(affected.cleanup_blocked as nat)
        + " awaiting cleanup. Nothing was changed."@
}

impl AffectedAttempts {
    /// The whole uncleaned set, as far as 16 bits hold it.
    pub open spec fn whole(self) -> u16 {
        saturated(self.active + self.cleanup_blocked) as u16
    }

    /// The whole uncleaned set: what a fenced write is given.
    pub fn total(&self) -> (total: u16)
        ensures
            total == self.whole(),
    {
        if self.active > u16::MAX - self.cleanup_blocked {
            u16::MAX
        } else {
            self.active + self.cleanup_blocked
        }
    }

    /// Whether nothing is in the way.
    pub fn is_empty(&self) -> (empty: bool)
        ensures
            empty == (self.whole() == 0),
            empty == (self.active == 0 && self.cleanup_blocked == 0),
    {
        self.total() == 0
    }

    /// Splits an uncleaned set into the two counts.
    pub fn of(attempts: &Vec<RunnerAttempt>) -> (counts: AffectedAttempts)
        ensures
            counts.active == saturated(count_attempts(attempts@, false) as int),
            counts.cleanup_blocked == saturated(count_attempts(attempts@, true) as int),
    {
        let mut counts = AffectedAttempts { active: 0, cleanup_blocked: 0 };
        let mut i: usize = 0;
        while i < attempts.len()
            invariant
                i <= attempts@.len(),
                counts.active == saturated(
                    count_attempts(attempts@.take(i as int), false) as int,
                ),
                counts.cleanup_blocked == saturated(
                    count_attempts(attempts@.take(i as int), true) as int,
                ),
            decreases attempts.len() - i,
        {
            assert(attempts@.take(i as int + 1).drop_last() == attempts@.take(i as int));
            if attempts[i].terminal {
                if counts.cleanup_blocked < u16::MAX {
                    counts.cleanup_blocked = counts.cleanup_blocked + 1;
                }
            } else {
                if counts.active < u16::MAX {
                    counts.active = counts.active + 1;
                }
            }
            i = i + 1;
        }
        assert(attempts@.take(attempts@.len() as int) == attempts@);
        counts
    }

    /// The refusal, naming both counts even when one is zero.
    pub fn refusal(&self, subject: &str) -> (sentence: String)
        ensures
            sentence@ == refusal_text(subject@, *self),
    {
        let mut sentence = subject.to_owned();
        sentence.append(" cannot change while attempts still own it: ");
        push_decimal(&mut sentence, self.active as u64);
        sentence.append(" active and ");
        push_decimal(&mut sentence, self.cleanup_blocked as u64);
        sentence.append(" awaiting cleanup. Nothing was changed.");
        sentence
    }
}

/// Every attempt is counted once, in one of the two counts.
pub proof fn law_every_attempt_is_counted_once(attempts: Seq<RunnerAttempt>)
    ensures
        count_attempts(attempts, false) + count_attempts(attempts, true) == attempts.len(),
    decreases attempts.len(),
{
    if attempts.len() > 0 {
        law_every_attempt_is_counted_once(attempts.drop_last());
    }
}

/// The failure to read the local database.
pub open spec fn read_error(reason: Seq<char>) -> ErrorView {
    failure::error_with(
        Failure::LocalState,
        "cannot read this host's local database: "@ + reason,
        "runner-manager host show"@,
    )
}

/// Reports that the local database cannot be read.
pub fn read_failure(reason: &str) -> (failed: CliError)
    ensures
        failed@ == read_error(reason@),
{
    let mut message = "cannot read this host's local database: ".to_owned();
    message.append(reason);
    CliError::with_remedy(Failure::LocalState, message, "runner-manager host show")
}

/// What counting comes to, when the attempts could be read.
pub open spec fn counted(
    attempts: Result<Vec<RunnerAttempt>, String>,
    counts: Result<AffectedAttempts, CliError>,
) -> bool {
    match (attempts, counts) {
        (Ok(list), Ok(found)) => found.active == saturated(
            count_attempts(list@, false) as int,
        ) && found.cleanup_blocked == saturated(count_attempts(list@, true) as int),
        (Err(reason), Err(error)) => error@ == read_error(reason@),
        _ => false,
    }
}

/// Counts what was read, or reports that it could not be.
fn count_read(attempts: Result<Vec<RunnerAttempt>, String>) -> (counts: Result<
    AffectedAttempts,
    CliError,
>)
    ensures
        counted(attempts, counts),
{
    match attempts {
        Ok(list) => Ok(AffectedAttempts::of(&list)),
        Err(reason) => Err(read_failure(reason.as_str())),
    }
}

/// The uncleaned ephemeral attempts on this host, split into the two counts.
pub fn host_affected_attempts(attempts: Result<Vec<RunnerAttempt>, String>) -> (counts: Result<
    AffectedAttempts,
    CliError,
>)
    ensures
        counted(attempts, counts),
{
    count_read(attempts)
}

/// The uncleaned attempts of one policy, split into the two counts.
pub fn policy_affected_attempts(attempts: Result<Vec<RunnerAttempt>, String>) -> (counts: Result<
    AffectedAttempts,
    CliError,
>)
    ensures
        counted(attempts, counts),
{
    count_read(attempts)
}

// ---------------------------------------------------------------------------
// Slot leases
// ---------------------------------------------------------------------------

/// One slot that a policy still leases.
#[derive(Debug, Clone)]
pub struct SlotLease {
    pub slot: u16,
    pub attempt: String,
    pub state: String,
    /// The attempt has concluded, so the slot is quarantined and not merely
    /// busy.
    pub cleanup_blocked: bool,
}

/// The lease of one attempt, when it has one.
pub open spec fn lease_of(attempt: RunnerAttempt) -> Option<SlotLease> {
    match attempt.slot {
        Some(slot) => Some(
            SlotLease {
                slot,
                attempt: attempt.id,
                state: attempt.state,
                cleanup_blocked: attempt.terminal,
            },
        ),
        None => None,
    }
}

/// The leases of a list of attempts, in its order.
pub open spec fn leases_of(attempts: Seq<RunnerAttempt>) -> Seq<SlotLease>
    decreases attempts.len(),
{
    if attempts.len() == 0 {
        Seq::empty()
    } else {
        let before = leases_of(attempts.drop_last());
        match lease_of(attempts.last()) {
            Some(lease) => before.push(lease),
            None => before,
        }
    }
}

/// Every slot that the attempts still lease, in their order.
fn collect_leases(attempts: &Vec<RunnerAttempt>) -> (leases: Vec<SlotLease>)
    ensures
        leases@ == leases_of(attempts@),
{
    let mut leases: Vec<SlotLease> = Vec::new();
    let mut i: usize = 0;
    while i < attempts.len()
        invariant
            i <= attempts@.len(),
            leases@ == leases_of(attempts@.take(i as int)),
        decreases attempts.len() - i,
    {
        assert(attempts@.take(i as int + 1).drop_last() == attempts@.take(i as int));
        if let Some(slot) = attempts[i].slot {
            leases.push(
                SlotLease {
                    slot,
                    attempt: attempts[i].id.clone(),
                    state: attempts[i].state.clone(),
                    cleanup_blocked: attempts[i].terminal,
                },
            );
        }
        i = i + 1;
    }
    assert(attempts@.take(attempts@.len() as int) == attempts@);
    leases
}

/// Every slot that one policy still leases, oldest first.
pub fn slot_leases(attempts: Result<Vec<RunnerAttempt>, String>) -> (leases: Result<
    Vec<SlotLease>,
    CliError,
>)
    ensures
        match (attempts, leases) {
            (Ok(list), Ok(found)) => found@ == leases_of(list@),
            (Err(reason), Err(error)) => error@ == read_error(reason@),
            _ => false,
        },
{
    match attempts {
        Ok(list) => Ok(collect_leases(&list)),
        Err(reason) => Err(read_failure(reason.as_str())),
    }
}

// ---------------------------------------------------------------------------
// Targets and policies
// ---------------------------------------------------------------------------

/// Whether a target is a repository or an organization.
#[derive(Debug, Clone, Copy, PartialEq, Eq, Structural)]
pub enum TargetScope {
    Repository,
    Organization,
}

/// The word for a scope.
pub open spec fn scope_word(scope: TargetScope) -> Seq<char> {
    match scope {
        TargetScope::Repository => "repository"@,
        TargetScope::Organization => "organization"@,
    }
}

/// The word that scripts and listings use for a scope.
pub fn scope_token(scope: TargetScope) -> (token: &'static str)
    ensures
        token@ == scope_word(scope),
{
    match scope {
        TargetScope::Repository => "repository",
        TargetScope::Organization => "organization",
    }
}

/// What runners are provided for.
#[derive(Debug, Clone)]
pub struct ScaleTarget {
    pub scope: TargetScope,
    /// `owner/name`, or the organization's name.
    pub slug: String,
}

impl ScaleTarget {
    /// Whether this is the target named by a scope and a slug.
    pub open spec fn is_target(self, other: ScaleTarget) -> bool {
        self.scope == other.scope && self.slug@ == other.slug@
    }

    /// Whether two targets are the same.
    pub fn same(&self, other: &ScaleTarget) -> (same: bool)
        ensures
            same == self.is_target(*other),
    {
        self.scope == other.scope && same_text(self.slug.as_str(), other.slug.as_str())
    }

    /// An exact copy.
    pub fn duplicate(&self) -> (copy: ScaleTarget)
        ensures
            copy == *self,
    {
        ScaleTarget { scope: self.scope, slug: self.slug.clone() }
    }
}

/// The two ways a repository's workspace is kept.
#[derive(Debug, Clone, Copy, PartialEq, Eq, Structural)]
pub enum WorkspaceKind {
    Ephemeral,
    Persistent,
}

/// The word for a kind.
pub open spec fn kind_word(kind: WorkspaceKind) -> Seq<char> {
    match kind {
        WorkspaceKind::Ephemeral => "ephemeral"@,
        WorkspaceKind::Persistent => "persistent"@,
    }
}

/// A repository's workspace setting.
#[derive(Debug, Clone)]
pub enum WorkspacePolicy {
    /// Every attempt works in a directory of its own, which is thrown away.
    Ephemeral,
    /// Attempts work in slots under this root, which are kept.
    Persistent { root: String },
}

impl WorkspacePolicy {
    /// Which of the two ways.
    pub open spec fn kind_of(self) -> WorkspaceKind {
        match self {
            WorkspacePolicy::Ephemeral => WorkspaceKind::Ephemeral,
            WorkspacePolicy::Persistent { .. } => WorkspaceKind::Persistent,
        }
    }

    /// Which of the two ways.
    pub fn kind(&self) -> (kind: WorkspaceKind)
        ensures
            kind == self.kind_of(),
    {
        match self {
            WorkspacePolicy::Ephemeral => WorkspaceKind::Ephemeral,
            WorkspacePolicy::Persistent { .. } => WorkspaceKind::Persistent,
        }
    }

    /// The root of the slots, when they are kept.
    pub open spec fn slots_root(self) -> Option<String> {
        match self {
            WorkspacePolicy::Ephemeral => None,
            WorkspacePolicy::Persistent { root } => Some(root),
        }
    }

    /// The root of the slots, when they are kept.
    pub fn root(&self) -> (root: Option<&String>)
        ensures
            match root {
                Some(path) => self.slots_root() == Some(*path),
                None => self.slots_root() is None,
            },
    {
        match self {
            WorkspacePolicy::Ephemeral => None,
            WorkspacePolicy::Persistent { root } => Some(root),
        }
    }

    /// Whether the workspace is kept.
    pub fn is_persistent(&self) -> (persistent: bool)
        ensures
            persistent == (self is Persistent),
    {
        match self {
            WorkspacePolicy::Ephemeral => false,
            WorkspacePolicy::Persistent { .. } => true,
        }
    }
}

/// One repository's workspace settings, as every surface shows them.
#[derive(Debug, Clone)]
pub struct RepositoryWorkspace {
    pub target: ScaleTarget,
    pub policy: WorkspacePolicy,
    /// Where this repository's ephemeral attempts go.
    pub host_root: HostRoot,
    pub attempts: AffectedAttempts,
    pub leases: Vec<SlotLease>,
}

/// The directory that attempts under a policy are created in.
pub open spec fn attempts_root(policy: WorkspacePolicy, host_root: HostRoot) -> Option<String> {
    match policy {
        WorkspacePolicy::Persistent { root } => Some(root),
        WorkspacePolicy::Ephemeral => host_root.effective,
    }
}

impl RepositoryWorkspace {
    /// Which of the two ways.
    pub fn kind(&self) -> (kind: WorkspaceKind)
        ensures
            kind == self.policy.kind_of(),
    {
        self.policy.kind()
    }

    /// The directory this policy's next attempt is created under.
    pub fn effective_root(&self) -> (root: Option<&str>)
        ensures
            match root {
                Some(path) => text::opt_text(attempts_root(self.policy, self.host_root)) == Some(
                    path@,
                ),
                None => attempts_root(self.policy, self.host_root) is None,
            },
    {
        match &self.policy {
            WorkspacePolicy::Persistent { root } => Some(root.as_str()),
            WorkspacePolicy::Ephemeral => self.host_root.effective_text(),
        }
    }

    /// Which setting decided the effective root, for a script.
    pub fn root_source(&self) -> (token: &'static str)
        ensures
            token@ == if self.policy is Persistent {
                "repository"@
            } else {
                self.host_root.root_source().token()
            },
    {
        if self.policy.is_persistent() {
            "repository"
        } else {
            self.host_root.source().as_token()
        }
    }

    /// Which setting decided the effective root, for a person.
    pub fn root_source_badge(&self) -> (badge: &'static str)
        ensures
            badge@ == if self.policy is Persistent {
                "repository-specific"@
            } else {
                self.host_root.root_source().badge()
            },
    {
        if self.policy.is_persistent() {
            "repository-specific"
        } else {
            self.host_root.source().as_str()
        }
    }
}

/// Assembles the read model for one policy.
pub fn repository_workspace(
    target: ScaleTarget,
    policy: WorkspacePolicy,
    host_root: &HostRoot,
    uncleaned: Result<Vec<RunnerAttempt>, String>,
    leased: Result<Vec<RunnerAttempt>, String>,
) -> (workspace: Result<RepositoryWorkspace, CliError>)
    ensures
        match workspace {
            Ok(found) => {
                &&& found.target == target
                &&& found.policy == policy
                &&& found.host_root == *host_root
                &&& uncleaned is Ok && leased is Ok
                &&& counted(uncleaned, Ok(found.attempts))
                &&& found.leases@ == leases_of(leased->Ok_0@)
            },
            Err(error) => match (uncleaned, leased) {
                (Err(reason), _) => error@ == read_error(reason@),
                (Ok(_), Err(reason)) => error@ == read_error(reason@),
                (Ok(_), Ok(_)) => false,
            },
        },
{
    let attempts = match policy_affected_attempts(uncleaned) {
        Ok(found) => found,
        Err(error) => return Err(error),
    };
    let leases = match slot_leases(leased) {
        Ok(found) => found,
        Err(error) => return Err(error),
    };
    Ok(RepositoryWorkspace { target, policy, host_root: host_root.duplicate(), attempts, leases })
}

// ---------------------------------------------------------------------------
// Laws
// ---------------------------------------------------------------------------

/// An attempt that has not ended is active, and one that has ended and was not
/// cleaned up blocks: each count is the number of such attempts.
pub proof fn law_the_counts_are_of_unfinished_and_of_ended_attempts(attempts: Seq<RunnerAttempt>)
    ensures
        count_attempts(attempts, false) == attempts.filter(
            |attempt: RunnerAttempt| !attempt.terminal,
        ).len(),
        count_attempts(attempts, true) == attempts.filter(
            |attempt: RunnerAttempt| attempt.terminal,
        ).len(),
    decreases attempts.len(),
{
    reveal(Seq::filter);
    if attempts.len() > 0 {
        law_the_counts_are_of_unfinished_and_of_ended_attempts(attempts.drop_last());
    }
}

/// No attempt is in the way exactly where both counts are zero, and the total is
/// their sum as long as it can be written down.
pub proof fn law_the_total_is_the_sum(affected: AffectedAttempts)
    ensures
        affected.whole() == 0 <==> affected.active == 0 && affected.cleanup_blocked == 0,
        affected.active + affected.cleanup_blocked <= u16::MAX ==> affected.whole()
            == affected.active + affected.cleanup_blocked,
        affected.active + affected.cleanup_blocked > u16::MAX ==> affected.whole() == u16::MAX,
{
}

/// The override is the root wherever there is one, and the platform's default
/// otherwise; a default that cannot be had leaves no root, and the reason.
pub proof fn law_a_root_is_the_override_or_the_default(
    configured: Option<String>,
    default: Result<String, String>,
)
    ensures
        ({
            let root = root_of(configured, default);
            &&& root.configured == configured
            &&& configured is Some ==> root.effective == configured && root.unavailable is None
                && root.root_source() == RootSource::Configured
            &&& configured is None ==> root.root_source() == RootSource::PlatformDefault && match default {
                Ok(path) => root.effective == Some(path) && root.unavailable is None,
                Err(reason) => root.effective is None && root.unavailable == Some(reason),
            }
        }),
{
}

/// Every attempt that holds a slot has its lease, with its own name, state and
/// whether it only waits for its cleanup; no other attempt has one.
pub proof fn law_a_lease_is_of_an_attempt_with_a_slot(attempts: Seq<RunnerAttempt>)
    ensures
        leases_of(attempts).len() == attempts.filter(
            |attempt: RunnerAttempt| attempt.slot is Some,
        ).len(),
        forall|k: int|
            0 <= k < leases_of(attempts).len() ==> {
                let attempt = attempts.filter(|attempt: RunnerAttempt| attempt.slot is Some)[k];
                let lease = #[trigger] leases_of(attempts)[k];
                &&& attempt.slot == Some(lease.slot)
                &&& lease.attempt == attempt.id
                &&& lease.state == attempt.state
                &&& lease.cleanup_blocked == attempt.terminal
            },
    decreases attempts.len(),
{
    reveal(Seq::filter);
    if attempts.len() > 0 {
        law_a_lease_is_of_an_attempt_with_a_slot(attempts.drop_last());
    }
}

/// The next attempt of a repository goes to its own root where it keeps its
/// workspace, and to the host's otherwise.
pub proof fn law_attempts_go_to_the_policys_root_or_the_hosts(
    policy: WorkspacePolicy,
    host_root: HostRoot,
)
    ensures
        policy matches WorkspacePolicy::Persistent { root } ==> attempts_root(policy, host_root)
            == Some(root) && policy.kind_of() == WorkspaceKind::Persistent && policy.slots_root()
            == Some(root),
        policy is Ephemeral ==> attempts_root(policy, host_root) == host_root.effective
            && policy.kind_of() == WorkspaceKind::Ephemeral && policy.slots_root() is None,
{
}

/// The words for where a root comes from, for the two kinds of workspace and for
/// the two kinds of target are told apart, each by its own.
pub proof fn law_every_word_has_one_meaning(
    source: RootSource,
    kind: WorkspaceKind,
    scope: TargetScope,
)
    ensures
        source.badge() == "platform-default"@ <==> source is PlatformDefault,
        source.badge() == "configured"@ <==> source is Configured,
        source.token() == "platform_default"@ <==> source is PlatformDefault,
        source.token() == "configured"@ <==> source is Configured,
        kind_word(kind) == "ephemeral"@ <==> kind is Ephemeral,
        kind_word(kind) == "persistent"@ <==> kind is Persistent,
        scope_word(scope) == "repository"@ <==> scope is Repository,
        scope_word(scope) == "organization"@ <==> scope is Organization,
{
    reveal_strlit("platform-default");
    assert("platform-default"@.len() == 16);
    reveal_strlit("platform_default");
    assert("platform_default"@.len() == 16);
    reveal_strlit("configured");
    assert("configured"@.len() == 10);
    reveal_strlit("ephemeral");
    assert("ephemeral"@.len() == 9);
    reveal_strlit("persistent");
    assert("persistent"@.len() == 10);
    reveal_strlit("repository");
    assert("repository"@.len() == 10);
    reveal_strlit("organization");
    assert("organization"@.len() == 12);
}

/// A target is another one only if both the scope and the name are the same.
pub proof fn law_a_target_is_its_scope_and_its_name(
    target: ScaleTarget,
    scope: TargetScope,
    slug: String,
)
    ensures
        target.is_target(target),
        target.is_target(ScaleTarget { scope, slug: target.slug }) <==> scope == target.scope,
        target.is_target(ScaleTarget { scope: target.scope, slug }) <==> slug@ == target.slug@,
{
}

/// The trust warning is its seven lines, in their order.
pub proof fn law_the_trust_warning_is_all_its_lines()
    ensures
        trust_warning_text() == text::joined(
            seq![
                PERSISTENT_TRUST_WARNING[0]@,
                PERSISTENT_TRUST_WARNING[1]@,
                PERSISTENT_TRUST_WARNING[2]@,
                PERSISTENT_TRUST_WARNING[3]@,
                PERSISTENT_TRUST_WARNING[4]@,
                PERSISTENT_TRUST_WARNING[5]@,
                PERSISTENT_TRUST_WARNING[6]@,
            ],
            "\n"@,
        ) + "\n"@,
{
    let lines = seq![
        PERSISTENT_TRUST_WARNING[0]@,
        PERSISTENT_TRUST_WARNING[1]@,
        PERSISTENT_TRUST_WARNING[2]@,
        PERSISTENT_TRUST_WARNING[3]@,
        PERSISTENT_TRUST_WARNING[4]@,
        PERSISTENT_TRUST_WARNING[5]@,
        PERSISTENT_TRUST_WARNING[6]@,
    ];
    reveal_with_fuel(text::joined, 8);
    assert(lines.drop_last() =~= lines.take(6));
    assert(lines.take(6).drop_last() =~= lines.take(5));
    assert(lines.take(5).drop_last() =~= lines.take(4));
    assert(lines.take(4).drop_last() =~= lines.take(3));
    assert(lines.take(3).drop_last() =~= lines.take(2));
    assert(lines.take(2).drop_last() =~= lines.take(1));
    assert(text::joined(lines.take(1), "\n"@) == lines[0]);
}

/// What was counted is how many attempts have not ended and how many have, as far
/// as the counters go. Attempts that cannot be read are reported, with the reason.
pub proof fn law_what_is_counted_is_what_was_read(
    attempts: Result<Vec<RunnerAttempt>, String>,
    counts: Result<AffectedAttempts, CliError>,
)
    requires
        counted(attempts, counts),
    ensures
        attempts is Ok <==> counts is Ok,
        attempts matches Ok(list) ==> ({
            let active = list@.filter(|attempt: RunnerAttempt| !attempt.terminal).len();
            let ended = list@.filter(|attempt: RunnerAttempt| attempt.terminal).len();
            &&& active <= u16::MAX ==> counts->Ok_0.active == active
            &&& active > u16::MAX ==> counts->Ok_0.active == u16::MAX
            &&& ended <= u16::MAX ==> counts->Ok_0.cleanup_blocked == ended
            &&& ended > u16::MAX ==> counts->Ok_0.cleanup_blocked == u16::MAX
        }),
        attempts matches Err(reason) ==> (counts->Err_0)@.class == Failure::LocalState && (
        counts->Err_0)@.message == "cannot read this host's local database: "@ + reason@,
{
    if let Ok(list) = attempts {
        law_the_counts_are_of_unfinished_and_of_ended_attempts(list@);
    }
}

/// A root is shown as it is, and one that cannot be had with the reason.
pub proof fn law_a_root_is_shown_as_it_is(root: HostRoot)
    ensures
        root.effective matches Some(path) ==> root.shown() == path@,
        root.effective is None ==> (root.unavailable matches Some(reason) ==> root.shown()
            == "unavailable ("@ + reason@ + ")"@),
        root.effective is None && root.unavailable is None ==> root.shown() == "unavailable"@,
{
}

} // verus!
