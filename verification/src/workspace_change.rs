//! Changes to the host's runner root and to a repository's workspace.

use vstd::prelude::*;

use crate::failure;
use crate::failure::{CliError, ErrorView, Failure};
use crate::text;
use crate::text::{copy_optional, quoted, same_text};
use crate::workspace;
use crate::workspace::{
    host_root, read_failure, AffectedAttempts, HostRoot, ScaleTarget, WorkspaceKind,
    WorkspacePolicy,
};

verus! {

// ---------------------------------------------------------------------------
// Owners and the roots they hold
// ---------------------------------------------------------------------------

/// Who a root belongs to: how that is said, and the command that sets it right.
#[derive(Debug, Clone)]
pub struct RootOwner {
    /// The repository, or `None` for the host itself.
    pub repository: Option<String>,
    pub shown: String,
    pub remediation: String,
}

/// A root that some owner already holds.
#[derive(Debug, Clone)]
pub struct ConfiguredRoot {
    /// The repository, or `None` for the host itself.
    pub repository: Option<String>,
    pub root: String,
}

/// A policy, as far as a path change reads it.
#[derive(Debug, Clone)]
pub struct PolicyRow {
    pub target: ScaleTarget,
    pub workspace: WorkspacePolicy,
    /// Counts the changes of the policy: a write over another one is refused.
    pub revision: u64,
}

/// The persistent roots of a list of policies, each with its repository.
pub open spec fn persistent_roots(policies: Seq<PolicyRow>) -> Seq<ConfiguredRoot>
    decreases policies.len(),
{
    if policies.len() == 0 {
        Seq::empty()
    } else {
        let before = persistent_roots(policies.drop_last());
        match policies.last().workspace.slots_root() {
            Some(root) => before.push(
                ConfiguredRoot { repository: Some(policies.last().target.slug), root },
            ),
            None => before,
        }
    }
}

/// Every root that a new one must not overlap: the host's, then every
/// repository's.
pub open spec fn overlap_set(host: HostRoot, policies: Seq<PolicyRow>) -> Seq<ConfiguredRoot> {
    (match host.effective {
        Some(root) => seq![ConfiguredRoot { repository: None, root }],
        None => Seq::empty(),
    }) + persistent_roots(policies)
}

/// Assembles every root that a new one must not overlap, so that no repository
/// can be forgotten.
pub fn preflight_against_everything(host: &HostRoot, policies: &Vec<PolicyRow>) -> (roots: Vec<
    ConfiguredRoot,
>)
    ensures
        roots@ == overlap_set(*host, policies@),
{
    let mut roots: Vec<ConfiguredRoot> = Vec::new();
    if let Some(root) = &host.effective {
        roots.push(ConfiguredRoot { repository: None, root: root.clone() });
    }
    let ghost first = roots@;
    assert(first + persistent_roots(policies@.take(0)) == roots@);
    let mut i: usize = 0;
    while i < policies.len()
        invariant
            i <= policies@.len(),
            roots@ == first + persistent_roots(policies@.take(i as int)),
        decreases policies.len() - i,
    {
        assert(policies@.take(i as int + 1).drop_last() == policies@.take(i as int));
        let ghost before = roots@;
        if let Some(root) = policies[i].workspace.root() {
            let entry = ConfiguredRoot {
                repository: Some(policies[i].target.slug.clone()),
                root: root.clone(),
            };
            roots.push(entry);
            assert(roots@ == first + persistent_roots(policies@.take(i as int)).push(entry));
        }
        i = i + 1;
    }
    assert(policies@.take(policies@.len() as int) == policies@);
    roots
}

/// No repository that keeps a workspace is left out of the overlap set, and
/// neither is the host.
pub proof fn law_no_configured_root_is_forgotten(host: HostRoot, policies: Seq<PolicyRow>, i: int)
    requires
        0 <= i < policies.len(),
        policies[i].workspace.slots_root() is Some,
    ensures
        overlap_set(host, policies).contains(
            ConfiguredRoot {
                repository: Some(policies[i].target.slug),
                root: policies[i].workspace.slots_root()->0,
            },
        ),
        host.effective matches Some(root) ==> overlap_set(host, policies).contains(
            ConfiguredRoot { repository: None, root },
        ),
{
    let entry = ConfiguredRoot {
        repository: Some(policies[i].target.slug),
        root: policies[i].workspace.slots_root()->0,
    };
    lemma_persistent_roots_hold(policies, i, entry);
    let heads = overlap_set(host, policies).take(
        overlap_set(host, policies).len() - persistent_roots(policies).len(),
    );
    let at = choose|k: int|
        0 <= k < persistent_roots(policies).len() && persistent_roots(policies)[k] == entry;
    assert(overlap_set(host, policies)[heads.len() + at] == entry);
    if let Some(root) = host.effective {
        assert(overlap_set(host, policies)[0] == (ConfiguredRoot { repository: None, root }));
    }
}

/// A persistent root is among the persistent roots.
proof fn lemma_persistent_roots_hold(policies: Seq<PolicyRow>, i: int, entry: ConfiguredRoot)
    requires
        0 <= i < policies.len(),
        policies[i].workspace.slots_root() == Some(entry.root),
        entry.repository == Some(policies[i].target.slug),
    ensures
        persistent_roots(policies).contains(entry),
    decreases policies.len(),
{
    let before = persistent_roots(policies.drop_last());
    if i < policies.len() - 1 {
        lemma_persistent_roots_hold(policies.drop_last(), i, entry);
        let at = choose|k: int| 0 <= k < before.len() && before[k] == entry;
        assert(persistent_roots(policies)[at] == entry);
    } else {
        assert(persistent_roots(policies)[before.len() as int] == entry);
    }
}

/// The refusal for a text that is no usable path.
pub open spec fn unparsed_error(raw: Seq<char>, owner: RootOwner, reason: Seq<char>) -> ErrorView {
    failure::error_with(
        Failure::InvalidArgument,
        text::debug_text(raw) + " cannot be used as "@ + owner.shown@ + ": "@ + reason,
        owner.remediation@,
    )
}

/// The refusal for a path that this host cannot hold.
pub open spec fn unusable_error(owner: RootOwner, reason: Seq<char>) -> ErrorView {
    failure::error_with(Failure::InvalidArgument, reason, owner.remediation@)
}

/// Decides on an operator's path, given what parsing it came to.
pub fn parse_root(raw: &str, owner: &RootOwner, parsed: Result<String, String>) -> (root: Result<
    String,
    CliError,
>)
    ensures
        match (parsed, root) {
            (Ok(path), Ok(found)) => found == path,
            (Err(reason), Err(error)) => error@ == unparsed_error(raw@, *owner, reason@),
            _ => false,
        },
{
    match parsed {
        Ok(path) => Ok(path),
        Err(reason) => {
            let mut message = quoted(raw);
            message.append(" cannot be used as ");
            message.append(owner.shown.as_str());
            message.append(": ");
            message.append(reason.as_str());
            Err(
                CliError::with_remedy(
                    Failure::InvalidArgument,
                    message,
                    owner.remediation.as_str(),
                ),
            )
        },
    }
}

/// Reports a path that this host cannot hold.
pub fn unusable(owner: &RootOwner, reason: String) -> (failed: CliError)
    ensures
        failed@ == unusable_error(*owner, reason@),
{
    CliError::with_remedy(Failure::InvalidArgument, reason, owner.remediation.as_str())
}

/// Answers whether a path could be used, without creating or writing anything:
/// `parsed` is what the text parses to, and `checked` what the preflight says
/// of it.
pub fn check_root(
    raw: &str,
    owner: &RootOwner,
    parsed: Result<String, String>,
    checked: Result<(), String>,
) -> (root: Result<String, CliError>)
    ensures
        match (parsed, checked, root) {
            (Err(reason), _, Err(error)) => error@ == unparsed_error(raw@, *owner, reason@),
            (Ok(_), Err(reason), Err(error)) => error@ == unusable_error(*owner, reason@),
            (Ok(path), Ok(()), Ok(found)) => found == path,
            _ => false,
        },
{
    let root = match parse_root(raw, owner, parsed) {
        Ok(root) => root,
        Err(error) => return Err(error),
    };
    match checked {
        Ok(()) => Ok(root),
        Err(reason) => Err(unusable(owner, reason)),
    }
}

// ---------------------------------------------------------------------------
// The steps of a change
// ---------------------------------------------------------------------------

/// What the store is asked to write: the new value, what has to stand in its
/// place still, and how many uncleaned attempts there may be. The store refuses
/// it where either is no longer so.
#[derive(Debug, Clone)]
pub enum StoreWrite {
    /// The override of the host's runner root, over the one that was read.
    /// Nothing else of the host's row is written.
    Root { expected: Option<String>, value: Option<String>, uncleaned: u16 },
    /// The workspace of a policy, over the revision that was read.
    Workspace { expected_revision: u64, workspace: WorkspacePolicy, uncleaned: u16 },
}

/// What a change does next.
#[derive(Debug, Clone)]
pub enum ChangeStep {
    /// Count the attempts that still own the directory.
    Count,
    /// Validate the new path against every other root, touching nothing.
    Validate { root: String },
    /// Create the one directory that is missing.
    Create { leaf: String },
    /// Settle the new setting on the policy that was read, and learn whether it
    /// differs from the old one.
    Apply { created: Option<String>, workspace: WorkspacePolicy },
    /// Write the new value behind its fence.
    Write { created: Option<String>, write: StoreWrite },
    /// Say what was done.
    Report { created: Option<String> },
}

/// A write that the store refused.
#[derive(Debug, Clone)]
pub struct StoreRefusal {
    pub reason: String,
    /// Another process got there first.
    pub conflict: bool,
}

/// What a step came to.
#[derive(Debug, Clone)]
pub enum ChangeEvent {
    /// The attempts were counted.
    Counted(AffectedAttempts),
    /// Something could not be read out of the store.
    Unreadable(String),
    /// The path is usable; this leaf has to be created first, if any.
    Usable(Option<String>),
    /// The path is not usable, for this reason.
    Unusable(String),
    /// The leaf was created.
    Created,
    /// The leaf could not be created, for this reason.
    NotCreated(String),
    /// The setting was settled; it differs from the old one or not.
    Applied(bool),
    /// The setting was refused, for this reason.
    NotApplied(String),
    /// The value was written.
    Written,
    /// The value was not written.
    NotWritten(StoreRefusal),
}

/// What comes next, or the failure.
pub open spec fn change_view(next: Result<ChangeStep, CliError>) -> Result<ChangeStep, ErrorView> {
    match next {
        Ok(step) => Ok(step),
        Err(error) => Err(error@),
    }
}

/// What is being changed, as far as the steps differ by it.
pub struct ChangeShape {
    /// How the setting is named in a refusal.
    pub subject: Seq<char>,
    /// Why the setting asked for cannot be had, when it cannot.
    pub refused: Option<ErrorView>,
    /// The new path to validate, when there is one.
    pub path: Option<String>,
    /// What is to be written.
    pub write: StoreWrite,
}

/// The sentence about a directory that was created before the write was
/// refused; nothing when none was.
pub open spec fn leftover_text(created: Option<Seq<char>>) -> Seq<char> {
    match created {
        Some(leaf) => " The empty directory "@ + leaf
            + " was created before the write was refused and has been left in place; remove it yourself if you do not want it."@,
        None => Seq::empty(),
    }
}

/// The refused write, with the directory that was left behind.
pub open spec fn write_error(refusal: StoreRefusal, created: Option<String>) -> ErrorView {
    failure::error_with(
        if refusal.conflict {
            Failure::Conflict
        } else {
            Failure::LocalState
        },
        refusal.reason@ + leftover_text(text::opt_text(created)),
        "runner-manager status, then retry"@,
    )
}

/// What follows the checks that touch nothing.
pub open spec fn once_ready(shape: ChangeShape, created: Option<String>) -> ChangeStep {
    match shape.write {
        StoreWrite::Workspace { workspace, .. } => ChangeStep::Apply { created, workspace },
        StoreWrite::Root { .. } => ChangeStep::Write { created, write: shape.write },
    }
}

/// What follows a step that came to this. An event that does not answer the
/// step leaves it where it is.
pub open spec fn change_after(
    shape: ChangeShape,
    owner: RootOwner,
    step: ChangeStep,
    event: ChangeEvent,
) -> Result<ChangeStep, ErrorView> {
    match (step, event) {
        (_, ChangeEvent::Unreadable(reason)) => Err(workspace::read_error(reason@)),
        (ChangeStep::Count, ChangeEvent::Counted(affected)) => if affected.whole() != 0 {
            Err(
                failure::error_with(
                    Failure::Conflict,
                    workspace::refusal_text(shape.subject, affected),
                    "runner-manager status"@,
                ),
            )
        } else if shape.refused is Some {
            Err(shape.refused->0)
        } else {
            match shape.path {
                Some(root) => Ok(ChangeStep::Validate { root }),
                None => Ok(once_ready(shape, None)),
            }
        },
        (ChangeStep::Validate { .. }, ChangeEvent::Usable(leaf)) => match leaf {
            Some(path) => Ok(ChangeStep::Create { leaf: path }),
            None => Ok(once_ready(shape, None)),
        },
        (ChangeStep::Validate { .. }, ChangeEvent::Unusable(reason)) => Err(
            unusable_error(owner, reason@),
        ),
        (ChangeStep::Create { leaf }, ChangeEvent::Created) => Ok(once_ready(shape, Some(leaf))),
        (ChangeStep::Create { leaf }, ChangeEvent::NotCreated(reason)) => Err(
            failure::error_with(
                Failure::LocalState,
                "cannot create "@ + leaf@ + ": "@ + reason@,
                owner.remediation@,
            ),
        ),
        (ChangeStep::Apply { created, .. }, ChangeEvent::Applied(differs)) => Ok(
            if differs {
                ChangeStep::Write { created, write: shape.write }
            } else {
                ChangeStep::Report { created }
            },
        ),
        (ChangeStep::Apply { .. }, ChangeEvent::NotApplied(reason)) => Err(
            failure::plain_error(Failure::InvalidArgument, reason@),
        ),
        (ChangeStep::Write { created, .. }, ChangeEvent::Written) => Ok(
            ChangeStep::Report { created },
        ),
        (ChangeStep::Write { created, .. }, ChangeEvent::NotWritten(refusal)) => Err(
            write_error(refusal, created),
        ),
        (step, _) => Ok(step),
    }
}

/// The sentence about a directory that was left behind.
pub fn leftover_note(created: &Option<String>) -> (note: String)
    ensures
        note@ == leftover_text(text::opt_text(*created)),
{
    match created {
        Some(leaf) => {
            let mut note = " The empty directory ".to_owned();
            note.append(leaf.as_str());
            note.append(
                " was created before the write was refused and has been left in place; remove it yourself if you do not want it.",
            );
            note
        },
        None => String::new(),
    }
}

/// Reports a refused write. The directory that was created is named and left:
/// it is not known to be empty any more.
pub fn write_failure(refusal: StoreRefusal, created: &Option<String>) -> (failed: CliError)
    ensures
        failed@ == write_error(refusal, *created),
{
    let class = if refusal.conflict {
        Failure::Conflict
    } else {
        Failure::LocalState
    };
    let mut message = refusal.reason;
    message.append(leftover_note(created).as_str());
    CliError::with_remedy(class, message, "runner-manager status, then retry")
}

/// The failure that a refused setting is.
pub open spec fn refusal_view(refused: Option<CliError>) -> Option<ErrorView> {
    match refused {
        Some(error) => Some(error@),
        None => None,
    }
}

/// Takes one step of a change. `subject`, `refused`, `path` and `write` say what
/// is being changed.
fn advance(
    subject: &str,
    refused: Option<CliError>,
    path: Option<String>,
    write: StoreWrite,
    owner: &RootOwner,
    step: ChangeStep,
    event: ChangeEvent,
) -> (next: Result<ChangeStep, CliError>)
    ensures
        change_view(next) == change_after(
            ChangeShape { subject: subject@, refused: refusal_view(refused), path, write },
            *owner,
            step,
            event,
        ),
{
    let mut ready: Option<String> = None;
    match (step, event) {
        (_, ChangeEvent::Unreadable(reason)) => return Err(read_failure(reason.as_str())),
        (ChangeStep::Count, ChangeEvent::Counted(affected)) => {
            if !affected.is_empty() {
                return Err(
                    CliError::with_remedy(
                        Failure::Conflict,
                        affected.refusal(subject),
                        "runner-manager status",
                    ),
                );
            }
            if let Some(error) = refused {
                return Err(error);
            }
            if let Some(root) = path {
                return Ok(ChangeStep::Validate { root });
            }
        },
        (ChangeStep::Validate { .. }, ChangeEvent::Usable(leaf)) => {
            match leaf {
                Some(path) => return Ok(ChangeStep::Create { leaf: path }),
                None => {},
            }
        },
        (ChangeStep::Validate { .. }, ChangeEvent::Unusable(reason)) => {
            return Err(unusable(owner, reason));
        },
        (ChangeStep::Create { leaf }, ChangeEvent::Created) => {
            ready = Some(leaf);
        },
        (ChangeStep::Create { leaf }, ChangeEvent::NotCreated(reason)) => {
            let mut message = "cannot create ".to_owned();
            message.append(leaf.as_str());
            message.append(": ");
            message.append(reason.as_str());
            return Err(
                CliError::with_remedy(Failure::LocalState, message, owner.remediation.as_str()),
            );
        },
        (ChangeStep::Apply { created, .. }, ChangeEvent::Applied(differs)) => {
            if differs {
                return Ok(ChangeStep::Write { created, write });
            }
            return Ok(ChangeStep::Report { created });
        },
        (ChangeStep::Apply { .. }, ChangeEvent::NotApplied(reason)) => {
            return Err(CliError::new(Failure::InvalidArgument, reason));
        },
        (ChangeStep::Write { created, .. }, ChangeEvent::Written) => {
            return Ok(ChangeStep::Report { created });
        },
        (ChangeStep::Write { created, .. }, ChangeEvent::NotWritten(refusal)) => {
            return Err(write_failure(refusal, &created));
        },
        (other, _) => return Ok(other),
    }
    match write {
        StoreWrite::Workspace { workspace, .. } => Ok(
            ChangeStep::Apply { created: ready, workspace },
        ),
        root => Ok(ChangeStep::Write { created: ready, write: root }),
    }
}

/// The change of the host's runner root: `requested` is written over the
/// override that was read, while no attempt is uncleaned. A reset has no path
/// and so validates nothing.
pub open spec fn host_shape(previous: HostRoot, requested: Option<String>) -> ChangeShape {
    ChangeShape {
        subject: "the host runner root"@,
        refused: None,
        path: requested,
        write: StoreWrite::Root {
            expected: previous.configured,
            value: requested,
            uncleaned: 0,
        },
    }
}

/// Takes one step of a change of the host's runner root, which begins with
/// [`ChangeStep::Count`]. `previous` is the root that was read before it, and
/// `requested` the value to store; `None` returns to the platform default.
pub fn set_host_runner_root(
    previous: &HostRoot,
    requested: &Option<String>,
    owner: &RootOwner,
    step: ChangeStep,
    event: ChangeEvent,
) -> (next: Result<ChangeStep, CliError>)
    ensures
        change_view(next) == change_after(
            host_shape(*previous, *requested),
            *owner,
            step,
            event,
        ),
{
    let write = StoreWrite::Root {
        expected: copy_optional(&previous.configured),
        value: copy_optional(requested),
        uncleaned: 0,
    };
    advance("the host runner root", None, copy_optional(requested), write, owner, step, event)
}

// ---------------------------------------------------------------------------
// What the service will be able to reach
// ---------------------------------------------------------------------------

/// When the service is started.
#[derive(Debug, Clone, Copy, PartialEq, Eq, Structural)]
pub enum StartMode {
    Boot,
    Login,
}

/// A root that this account can use and the service's account cannot.
#[derive(Debug, Clone)]
pub struct ServiceAccessWarning {
    /// The binary to grant access to: the copy the service runs. `None` when
    /// the registration cannot be read.
    pub program: Option<String>,
}

/// What reading the install record came to.
#[derive(Debug, Clone)]
pub enum InstallRead {
    /// There is no record.
    Missing,
    /// There is one, and this account may not read it.
    NotPermitted,
    /// It cannot be read for another reason.
    Damaged,
    /// It says this.
    Found { start_mode: StartMode, binary: String },
}

/// What the install record says about the service.
#[derive(Debug, Clone)]
pub enum RegisteredService {
    /// No registration.
    NotRegistered,
    /// A registration whose record was read.
    Known { start_mode: StartMode, binary: String },
    /// A registration whose record this account may not read.
    Unreadable,
}

/// The registration that a record amounts to.
pub open spec fn registration_of(read: InstallRead) -> RegisteredService {
    match read {
        InstallRead::Found { start_mode, binary } => RegisteredService::Known {
            start_mode,
            binary,
        },
        InstallRead::NotPermitted => RegisteredService::Unreadable,
        InstallRead::Missing | InstallRead::Damaged => RegisteredService::NotRegistered,
    }
}

/// Reads the registration out of the install record, which is the only
/// authority on what is registered.
pub fn registered_service(read: InstallRead) -> (service: RegisteredService)
    ensures
        service == registration_of(read),
{
    match read {
        InstallRead::Found { start_mode, binary } => RegisteredService::Known {
            start_mode,
            binary,
        },
        InstallRead::NotPermitted => RegisteredService::Unreadable,
        InstallRead::Missing | InstallRead::Damaged => RegisteredService::NotRegistered,
    }
}

/// Whether a service started this way may be denied a root on such a volume.
pub open spec fn may_be_denied(start_mode: StartMode, on_gated_volume: bool) -> bool {
    start_mode == StartMode::Boot && on_gated_volume
}

/// Whether a service started this way may be denied a root on such a volume: a
/// daemon that is started at boot cannot ask for consent.
pub fn service_may_be_denied(start_mode: StartMode, on_gated_volume: bool) -> (denied: bool)
    ensures
        denied == may_be_denied(start_mode, on_gated_volume),
{
    start_mode == StartMode::Boot && on_gated_volume
}

/// The warning that a root calls for, if any.
pub open spec fn access_warning(
    on_gated_volume: bool,
    service: RegisteredService,
    host_start_mode: StartMode,
) -> Option<ServiceAccessWarning> {
    match service {
        RegisteredService::NotRegistered => None,
        RegisteredService::Known { start_mode, binary } => if may_be_denied(
            start_mode,
            on_gated_volume,
        ) {
            Some(ServiceAccessWarning { program: Some(binary) })
        } else {
            None
        },
        RegisteredService::Unreadable => if may_be_denied(host_start_mode, on_gated_volume) {
            Some(ServiceAccessWarning { program: None })
        } else {
            None
        },
    }
}

/// Whether the service will be able to reach a root, and what to say if not.
/// `host_start_mode` is what this host believes; it is only asked where the
/// record cannot be read.
pub fn service_access_warning(
    on_gated_volume: bool,
    service: RegisteredService,
    host_start_mode: StartMode,
) -> (warning: Option<ServiceAccessWarning>)
    ensures
        warning == access_warning(on_gated_volume, service, host_start_mode),
{
    if !on_gated_volume {
        return None;
    }
    match service {
        RegisteredService::NotRegistered => None,
        RegisteredService::Known { start_mode, binary } => {
            if service_may_be_denied(start_mode, true) {
                Some(ServiceAccessWarning { program: Some(binary) })
            } else {
                None
            }
        },
        RegisteredService::Unreadable => {
            if service_may_be_denied(host_start_mode, true) {
                Some(ServiceAccessWarning { program: None })
            } else {
                None
            }
        },
    }
}

// ---------------------------------------------------------------------------
// What a change did
// ---------------------------------------------------------------------------

/// What one accepted change of the host's runner root did.
#[derive(Debug, Clone)]
pub struct RootChange {
    pub previous: HostRoot,
    pub current: HostRoot,
    /// The one directory that was created, if one was.
    pub created: Option<String>,
    /// The previous directory, which was neither moved nor deleted.
    pub retained: Option<String>,
    /// What the service will not be able to reach.
    pub service_access: Option<ServiceAccessWarning>,
}

/// The directory that a move leaves behind: the old one, unless the new one is
/// the same.
pub open spec fn left_behind(previous: Option<String>, current: Option<String>) -> Option<String> {
    match previous {
        None => None,
        Some(was) => match current {
            Some(is) if is@ == was@ => None,
            _ => Some(was),
        },
    }
}

/// The directory that a move leaves behind.
fn retained(previous: &Option<String>, current: &Option<String>) -> (left: Option<String>)
    ensures
        left == left_behind(*previous, *current),
{
    match previous {
        None => None,
        Some(was) => {
            if let Some(is) = current {
                if same_text(is.as_str(), was.as_str()) {
                    return None;
                }
            }
            Some(was.clone())
        },
    }
}

/// The previous directory that a change of the host's root left behind, if it
/// moved.
pub fn retained_between(previous: &HostRoot, current: &HostRoot) -> (left: Option<String>)
    ensures
        left == left_behind(previous.effective, current.effective),
{
    retained(&previous.effective, &current.effective)
}

/// The previous persistent root that a change of a repository left behind, if
/// it moved.
pub fn retained_root(previous: &WorkspacePolicy, current: &WorkspacePolicy) -> (left: Option<String>)
    ensures
        left == left_behind(previous.slots_root(), current.slots_root()),
{
    match (previous, current) {
        (WorkspacePolicy::Persistent { root: was }, WorkspacePolicy::Persistent { root: is }) => {
            if same_text(is.as_str(), was.as_str()) {
                None
            } else {
                Some(was.clone())
            }
        },
        (WorkspacePolicy::Persistent { root: was }, WorkspacePolicy::Ephemeral) => Some(
            was.clone(),
        ),
        (WorkspacePolicy::Ephemeral, _) => None,
    }
}

/// Assembles what an accepted change of the host's root did. `default` is what
/// the platform default resolves to.
pub fn root_changed(
    previous: HostRoot,
    requested: Option<String>,
    default: Result<String, String>,
    created: Option<String>,
    service_access: Option<ServiceAccessWarning>,
) -> (change: RootChange)
    ensures
        change.previous == previous,
        change.current == workspace::root_of(requested, default),
        change.created == created,
        change.retained == left_behind(
            previous.effective,
            workspace::root_of(requested, default).effective,
        ),
        change.service_access == if requested is Some {
            service_access
        } else {
            None
        },
{
    let configured = requested.is_some();
    let current = host_root(requested, default);
    let left = retained_between(&previous, &current);
    RootChange {
        retained: left,
        previous,
        current,
        created,
        service_access: if configured {
            service_access
        } else {
            None
        },
    }
}

/// What one accepted change of a repository's workspace did.
#[derive(Debug, Clone)]
pub struct WorkspaceChange {
    pub target: ScaleTarget,
    pub previous: WorkspacePolicy,
    pub current: WorkspacePolicy,
    /// Where this repository's ephemeral attempts go.
    pub host_root: HostRoot,
    pub created: Option<String>,
    /// The previous persistent root, which still holds every old slot.
    pub retained: Option<String>,
}

impl WorkspaceChange {
    /// The directory the next attempt will be created under, as it is shown.
    pub open spec fn shown_root(self) -> Seq<char> {
        match self.current {
            WorkspacePolicy::Persistent { root } => root@,
            WorkspacePolicy::Ephemeral => self.host_root.shown(),
        }
    }

    /// The directory the next attempt will be created under.
    pub fn effective_root(&self) -> (shown: String)
        ensures
            shown@ == self.shown_root(),
    {
        match &self.current {
            WorkspacePolicy::Persistent { root } => root.clone(),
            WorkspacePolicy::Ephemeral => self.host_root.rendered(),
        }
    }
}

/// Assembles what an accepted change of a repository's workspace did.
pub fn workspace_changed(
    target: &ScaleTarget,
    previous: WorkspacePolicy,
    current: WorkspacePolicy,
    host_root: HostRoot,
    created: Option<String>,
) -> (change: WorkspaceChange)
    ensures
        change == (WorkspaceChange {
            target: *target,
            previous,
            current,
            host_root,
            created,
            retained: left_behind(previous.slots_root(), current.slots_root()),
        }),
{
    let left = retained_root(&previous, &current);
    WorkspaceChange {
        target: target.duplicate(),
        retained: left,
        previous,
        current,
        host_root,
        created,
    }
}

// ---------------------------------------------------------------------------
// The change of a repository's workspace
// ---------------------------------------------------------------------------

/// The refusal of a path for a workspace that has no slots.
pub open spec fn ephemeral_path_error(target: ScaleTarget) -> ErrorView {
    failure::error_with(
        Failure::InvalidArgument,
        "--path names where persistent slots live, and an ephemeral workspace has none; nothing was changed"@,
        "runner-manager repo set-workspace "@ + target.slug@ + " --mode ephemeral"@,
    )
}

/// The refusal of a path for a workspace that has no slots.
pub fn ephemeral_rejects_a_path(target: &ScaleTarget) -> (failed: CliError)
    ensures
        failed@ == ephemeral_path_error(*target),
{
    let mut remedy = "runner-manager repo set-workspace ".to_owned();
    remedy.append(target.slug.as_str());
    remedy.append(" --mode ephemeral");
    CliError::with_remedy(
        Failure::InvalidArgument,
        "--path names where persistent slots live, and an ephemeral workspace has none; nothing was changed".to_owned(),
        remedy.as_str(),
    )
}

/// The setting that a mode and a path ask for. `refused` is why the target
/// cannot keep a workspace, when it cannot.
pub open spec fn requested_policy(
    target: ScaleTarget,
    kind: WorkspaceKind,
    path: Option<String>,
    refused: Option<String>,
) -> Result<WorkspacePolicy, ErrorView> {
    match (kind, path) {
        (WorkspaceKind::Ephemeral, None) => Ok(WorkspacePolicy::Ephemeral),
        (WorkspaceKind::Ephemeral, Some(_)) => Err(ephemeral_path_error(target)),
        (WorkspaceKind::Persistent, Some(root)) => match refused {
            None => Ok(WorkspacePolicy::Persistent { root }),
            Some(reason) => Err(
                failure::error_with(
                    Failure::InvalidArgument,
                    reason@,
                    "runner-manager repo set-workspace OWNER/REPO --mode ephemeral"@,
                ),
            ),
        },
        (WorkspaceKind::Persistent, None) => Err(
            failure::error_with(
                Failure::InvalidArgument,
                "a persistent workspace needs the directory its slots live in"@,
                "runner-manager repo set-workspace OWNER/REPO --mode persistent --path <PATH>"@,
            ),
        ),
    }
}

/// Settles the setting that a mode and a path ask for.
pub fn request_policy(
    target: &ScaleTarget,
    kind: WorkspaceKind,
    path: Option<String>,
    refused: Option<String>,
) -> (policy: Result<WorkspacePolicy, CliError>)
    ensures
        requested_policy(*target, kind, path, refused) == (match policy {
            Ok(found) => Ok::<WorkspacePolicy, ErrorView>(found),
            Err(error) => Err(error@),
        }),
{
    match (kind, path) {
        (WorkspaceKind::Ephemeral, None) => Ok(WorkspacePolicy::Ephemeral),
        (WorkspaceKind::Ephemeral, Some(_)) => Err(ephemeral_rejects_a_path(target)),
        (WorkspaceKind::Persistent, Some(root)) => match refused {
            None => Ok(WorkspacePolicy::Persistent { root }),
            Some(reason) => Err(
                CliError::with_remedy(
                    Failure::InvalidArgument,
                    reason,
                    "runner-manager repo set-workspace OWNER/REPO --mode ephemeral",
                ),
            ),
        },
        (WorkspaceKind::Persistent, None) => Err(
            CliError::with_remedy(
                Failure::InvalidArgument,
                "a persistent workspace needs the directory its slots live in".to_owned(),
                "runner-manager repo set-workspace OWNER/REPO --mode persistent --path <PATH>",
            ),
        ),
    }
}

/// The first policy for a target.
pub open spec fn first_policy(policies: Seq<PolicyRow>, target: ScaleTarget, from: int) -> Option<
    int,
>
    decreases policies.len() - from,
{
    if from < 0 || from >= policies.len() {
        None
    } else if policies[from].target.is_target(target) {
        Some(from)
    } else {
        first_policy(policies, target, from + 1)
    }
}

/// The refusal for a target without a policy.
pub open spec fn no_policy_error(target: ScaleTarget) -> ErrorView {
    failure::error_with(
        Failure::NotFound,
        "no policy for "@ + target.slug@ + " exists"@,
        "runner-manager repo list"@,
    )
}

/// Finds the policy for a target.
pub fn find_policy(policies: &Vec<PolicyRow>, target: &ScaleTarget) -> (found: Result<
    usize,
    CliError,
>)
    ensures
        match found {
            Ok(index) => first_policy(policies@, *target, 0) == Some(index as int) && index
                < policies@.len(),
            Err(error) => first_policy(policies@, *target, 0) is None && error@
                == no_policy_error(*target),
        },
{
    let mut i: usize = 0;
    while i < policies.len()
        invariant
            i <= policies@.len(),
            first_policy(policies@, *target, 0) == first_policy(policies@, *target, i as int),
        decreases policies.len() - i,
    {
        if policies[i].target.same(target) {
            return Ok(i);
        }
        i = i + 1;
    }
    let mut message = "no policy for ".to_owned();
    message.append(target.slug.as_str());
    message.append(" exists");
    Err(CliError::with_remedy(Failure::NotFound, message, "runner-manager repo list"))
}

/// The change of a repository's workspace: the setting asked for is written over
/// the revision that was read, while no attempt is uncleaned. It is judged once
/// the attempts were counted and before anything is validated.
pub open spec fn repository_shape(
    policy: PolicyRow,
    requested: Result<WorkspacePolicy, ErrorView>,
) -> ChangeShape {
    let workspace = match requested {
        Ok(setting) => setting,
        Err(_) => WorkspacePolicy::Ephemeral,
    };
    ChangeShape {
        subject: "the workspace setting for "@ + policy.target.slug@,
        refused: match requested {
            Ok(_) => None,
            Err(error) => Some(error),
        },
        path: workspace.slots_root(),
        write: StoreWrite::Workspace {
            expected_revision: policy.revision,
            workspace,
            uncleaned: 0,
        },
    }
}

/// Takes one step of a change of a repository's workspace, which begins with
/// [`ChangeStep::Count`] once the policy was found. `policy` is the one that was
/// read.
pub fn set_repository_workspace(
    policy: &PolicyRow,
    kind: WorkspaceKind,
    path: &Option<String>,
    refused: &Option<String>,
    owner: &RootOwner,
    step: ChangeStep,
    event: ChangeEvent,
) -> (next: Result<ChangeStep, CliError>)
    ensures
        change_view(next) == change_after(
            repository_shape(*policy, requested_policy(policy.target, kind, *path, *refused)),
            *owner,
            step,
            event,
        ),
{
    let requested = request_policy(
        &policy.target,
        kind,
        copy_optional(path),
        copy_optional(refused),
    );
    let mut subject = "the workspace setting for ".to_owned();
    subject.append(policy.target.slug.as_str());
    let (workspace, refusal) = match requested {
        Ok(setting) => (setting, None),
        Err(error) => (WorkspacePolicy::Ephemeral, Some(error)),
    };
    let root = match workspace.root() {
        Some(root) => Some(root.clone()),
        None => None,
    };
    let write = StoreWrite::Workspace {
        expected_revision: policy.revision,
        workspace,
        uncleaned: 0,
    };
    advance(subject.as_str(), refusal, root, write, owner, step, event)
}

// ---------------------------------------------------------------------------
// Laws
// ---------------------------------------------------------------------------

/// How far along a step is.
pub open spec fn stage_of(step: ChangeStep) -> nat {
    match step {
        ChangeStep::Count => 0,
        ChangeStep::Validate { .. } => 1,
        ChangeStep::Create { .. } => 2,
        ChangeStep::Apply { .. } => 3,
        ChangeStep::Write { .. } => 4,
        ChangeStep::Report { .. } => 5,
    }
}

/// Whether an event answers a step.
pub open spec fn answers(step: ChangeStep, event: ChangeEvent) -> bool {
    match step {
        ChangeStep::Count => event is Counted,
        ChangeStep::Validate { .. } => event is Usable || event is Unusable,
        ChangeStep::Create { .. } => event is Created || event is NotCreated,
        ChangeStep::Apply { .. } => event is Applied || event is NotApplied,
        ChangeStep::Write { .. } => event is Written || event is NotWritten,
        ChangeStep::Report { .. } => false,
    }
}

/// Whether a step changes anything on disk or in the store.
pub open spec fn mutates(step: ChangeStep) -> bool {
    step is Create || step is Write
}

/// A whole change: the steps that were performed, one for each event, and where
/// it stands.
pub open spec fn performed(
    shape: ChangeShape,
    owner: RootOwner,
    step: ChangeStep,
    events: Seq<ChangeEvent>,
) -> (Seq<ChangeStep>, Result<ChangeStep, ErrorView>)
    decreases events.len(),
{
    if events.len() == 0 {
        (Seq::empty(), Ok(step))
    } else {
        match change_after(shape, owner, step, events[0]) {
            Err(error) => (seq![step], Err(error)),
            Ok(next) => {
                let rest = performed(shape, owner, next, events.skip(1));
                (seq![step] + rest.0, rest.1)
            },
        }
    }
}

/// Every answered step leads forward, so every check comes before anything is
/// created or written.
pub proof fn law_a_change_only_moves_forward(
    shape: ChangeShape,
    owner: RootOwner,
    step: ChangeStep,
    event: ChangeEvent,
)
    requires
        answers(step, event),
    ensures
        change_after(shape, owner, step, event) matches Ok(next) ==> stage_of(next) > stage_of(
            step,
        ),
{
}

/// Attempts that still own the directory refuse the change behind both of their
/// counts, before anything else is even looked at.
pub proof fn law_attempts_in_the_way_refuse_the_change(
    shape: ChangeShape,
    owner: RootOwner,
    affected: AffectedAttempts,
    rest: Seq<ChangeEvent>,
)
    requires
        affected.active != 0 || affected.cleanup_blocked != 0,
    ensures
        ({
            let events = seq![ChangeEvent::Counted(affected)] + rest;
            let end = performed(shape, owner, ChangeStep::Count, events);
            &&& end.0 == seq![ChangeStep::Count]
            &&& end.1 == Err::<ChangeStep, ErrorView>(
                failure::error_with(
                    Failure::Conflict,
                    workspace::refusal_text(shape.subject, affected),
                    "runner-manager status"@,
                ),
            )
        }),
{
    let events = seq![ChangeEvent::Counted(affected)] + rest;
    assert(events[0] == ChangeEvent::Counted(affected));
}

/// A path that is not usable is refused with nothing created and nothing
/// written.
pub proof fn law_an_unusable_path_leaves_nothing_behind(
    shape: ChangeShape,
    owner: RootOwner,
    affected: AffectedAttempts,
    reason: String,
    rest: Seq<ChangeEvent>,
)
    requires
        shape.path is Some,
    ensures
        ({
            let events = seq![ChangeEvent::Counted(affected), ChangeEvent::Unusable(reason)] + rest;
            let end = performed(shape, owner, ChangeStep::Count, events);
            &&& end.1 is Err
            &&& forall|i: int| 0 <= i < end.0.len() ==> !mutates(#[trigger] end.0[i])
        }),
{
    let events = seq![ChangeEvent::Counted(affected), ChangeEvent::Unusable(reason)] + rest;
    assert(events[0] == ChangeEvent::Counted(affected));
    assert(events.skip(1)[0] == ChangeEvent::Unusable(reason));
    reveal_with_fuel(performed, 3);
}

/// Everything that is created or written is preceded by a count that came out
/// empty: from the count on, a step that mutates is only reached when nothing
/// was in the way, and a write is always given zero uncleaned attempts to
/// confirm.
pub proof fn law_nothing_changes_under_running_attempts(
    shape: ChangeShape,
    owner: RootOwner,
    event: ChangeEvent,
)
    requires
        answers(ChangeStep::Count, event),
        change_after(shape, owner, ChangeStep::Count, event) is Ok,
    ensures
        event->Counted_0.whole() == 0,
        event->Counted_0.active == 0,
        event->Counted_0.cleanup_blocked == 0,
{
}

/// A reset validates nothing and creates nothing, so it can always undo a bad
/// override: it goes straight from the count to the write.
pub proof fn law_a_reset_needs_no_usable_path(previous: HostRoot, owner: RootOwner)
    ensures
        change_after(
            host_shape(previous, None),
            owner,
            ChangeStep::Count,
            ChangeEvent::Counted(AffectedAttempts { active: 0, cleanup_blocked: 0 }),
        ) == Ok::<ChangeStep, ErrorView>(
            ChangeStep::Write {
                created: None,
                write: StoreWrite::Root {
                    expected: previous.configured,
                    value: None,
                    uncleaned: 0,
                },
            },
        ),
{
}

/// A lost race is a conflict that names the directory that was created before
/// it, and never claims to have removed it.
pub proof fn law_a_lost_race_names_what_it_left(
    shape: ChangeShape,
    owner: RootOwner,
    leaf: String,
    write: StoreWrite,
    refusal: StoreRefusal,
)
    requires
        refusal.conflict,
    ensures
        change_after(
            shape,
            owner,
            ChangeStep::Write { created: Some(leaf), write },
            ChangeEvent::NotWritten(refusal),
        ) == Err::<ChangeStep, ErrorView>(
            failure::error_with(
                Failure::Conflict,
                refusal.reason@ + leftover_text(Some(leaf@)),
                "runner-manager status, then retry"@,
            ),
        ),
{
}

/// A path is never silently dropped: asking for an ephemeral workspace with one
/// is refused before anything is validated.
pub proof fn law_an_ephemeral_workspace_rejects_a_path(
    policy: PolicyRow,
    path: String,
    refused: Option<String>,
    owner: RootOwner,
)
    ensures
        change_after(
            repository_shape(
                policy,
                requested_policy(policy.target, WorkspaceKind::Ephemeral, Some(path), refused),
            ),
            owner,
            ChangeStep::Count,
            ChangeEvent::Counted(AffectedAttempts { active: 0, cleanup_blocked: 0 }),
        ) == Err::<ChangeStep, ErrorView>(ephemeral_path_error(policy.target)),
{
}

/// Whether a step asks for nothing but what a change is for: the path that is
/// validated, the setting that is settled and the write are those of its shape.
pub open spec fn is_of(shape: ChangeShape, step: ChangeStep) -> bool {
    match step {
        ChangeStep::Validate { root } => shape.path == Some(root),
        ChangeStep::Apply { workspace, .. } => shape.write matches StoreWrite::Workspace {
            workspace: setting,
            ..
        } && workspace == setting,
        ChangeStep::Write { write, .. } => write == shape.write,
        _ => true,
    }
}

/// Steps of a change lead to steps of the same change.
proof fn lemma_performed_is_of(
    shape: ChangeShape,
    owner: RootOwner,
    step: ChangeStep,
    events: Seq<ChangeEvent>,
)
    requires
        is_of(shape, step),
    ensures
        ({
            let run = performed(shape, owner, step, events);
            &&& forall|i: int| 0 <= i < run.0.len() ==> is_of(shape, #[trigger] run.0[i])
            &&& run.1 matches Ok(last) ==> is_of(shape, last)
        }),
    decreases events.len(),
{
    if events.len() > 0 {
        match change_after(shape, owner, step, events[0]) {
            Err(_) => {},
            Ok(next) => {
                lemma_performed_is_of(shape, owner, next, events.skip(1));
                let rest = performed(shape, owner, next, events.skip(1));
                let run = performed(shape, owner, step, events);
                assert forall|i: int| 0 <= i < run.0.len() implies is_of(
                    shape,
                    #[trigger] run.0[i],
                ) by {
                    if i > 0 {
                        assert(run.0[i] == rest.0[i - 1]);
                    }
                }
            },
        }
    }
}

/// A step beyond the count was preceded by a count that came out empty.
proof fn lemma_counted_before(
    shape: ChangeShape,
    owner: RootOwner,
    events: Seq<ChangeEvent>,
    i: int,
)
    requires
        ({
            let run = performed(shape, owner, ChangeStep::Count, events);
            &&& 0 <= i < run.0.len()
            &&& run.0[i] !is Count
        }),
    ensures
        exists|j: int|
            0 <= j < i && j < events.len() && (#[trigger] events[j] matches ChangeEvent::Counted(
                affected,
            ) && affected.whole() == 0),
    decreases events.len(),
{
    if events.len() > 0 {
        match change_after(shape, owner, ChangeStep::Count, events[0]) {
            Err(_) => {},
            Ok(next) => {
                if events[0] is Counted {
                    assert(events[0]->Counted_0.whole() == 0);
                } else {
                    assert(next == ChangeStep::Count);
                    let rest = performed(shape, owner, next, events.skip(1));
                    let run = performed(shape, owner, ChangeStep::Count, events);
                    assert(run.0 == seq![ChangeStep::Count] + rest.0);
                    assert(run.0[i] == rest.0[i - 1]);
                    lemma_counted_before(shape, owner, events.skip(1), i - 1);
                    let j = choose|j: int|
                        0 <= j < i - 1 && j < events.skip(1).len() && (
                        #[trigger] events.skip(1)[j] matches ChangeEvent::Counted(affected)
                            && affected.whole() == 0);
                    assert(events[j + 1] == events.skip(1)[j]);
                }
            },
        }
    }
}

/// A change of the host's runner root writes no stale value: in every run from
/// the count on, whatever happens between, each write hands the store the
/// override that was read, the root that was requested, and the total that was
/// counted.
pub proof fn law_the_host_write_is_fenced(
    previous: HostRoot,
    requested: Option<String>,
    owner: RootOwner,
    events: Seq<ChangeEvent>,
    i: int,
)
    requires
        ({
            let run = performed(host_shape(previous, requested), owner, ChangeStep::Count, events);
            &&& 0 <= i < run.0.len()
            &&& run.0[i] is Write
        }),
    ensures
        ({
            let run = performed(host_shape(previous, requested), owner, ChangeStep::Count, events);
            &&& run.0[i] matches ChangeStep::Write {
                write: StoreWrite::Root { expected, value, uncleaned },
                ..
            }
            &&& expected == previous.configured
            &&& value == requested
            &&& exists|j: int|
                0 <= j < i && j < events.len() && (
                #[trigger] events[j] matches ChangeEvent::Counted(affected) && affected.whole()
                    == uncleaned)
        }),
{
    let shape = host_shape(previous, requested);
    lemma_performed_is_of(shape, owner, ChangeStep::Count, events);
    lemma_counted_before(shape, owner, events, i);
    let run = performed(shape, owner, ChangeStep::Count, events);
    assert(is_of(shape, run.0[i]));
}

/// A change of a repository's workspace writes no stale policy: in every run
/// from the count on, whatever happens between, each write hands the store the
/// revision that was read, the setting that was requested, and the total that
/// was counted; and that setting is what was settled on the policy before.
pub proof fn law_the_workspace_write_is_fenced(
    policy: PolicyRow,
    kind: WorkspaceKind,
    path: Option<String>,
    refused: Option<String>,
    owner: RootOwner,
    events: Seq<ChangeEvent>,
    i: int,
)
    requires
        ({
            let requested = requested_policy(policy.target, kind, path, refused);
            let shape = repository_shape(policy, requested);
            let run = performed(shape, owner, ChangeStep::Count, events);
            &&& 0 <= i < run.0.len()
            &&& run.0[i] is Apply || run.0[i] is Write
        }),
    ensures
        ({
            let requested = requested_policy(policy.target, kind, path, refused);
            let shape = repository_shape(policy, requested);
            let run = performed(shape, owner, ChangeStep::Count, events);
            &&& requested is Ok
            &&& run.0[i] matches ChangeStep::Apply { workspace, .. } ==> workspace
                == requested->Ok_0
            &&& run.0[i] is Write ==> {
                &&& run.0[i] matches ChangeStep::Write {
                    write: StoreWrite::Workspace { expected_revision, workspace, uncleaned },
                    ..
                }
                &&& expected_revision == policy.revision
                &&& workspace == requested->Ok_0
                &&& exists|j: int|
                    0 <= j < i && j < events.len() && (
                    #[trigger] events[j] matches ChangeEvent::Counted(affected)
                        && affected.whole() == uncleaned)
            }
        }),
{
    let requested = requested_policy(policy.target, kind, path, refused);
    let shape = repository_shape(policy, requested);
    lemma_performed_is_of(shape, owner, ChangeStep::Count, events);
    lemma_counted_before(shape, owner, events, i);
    let run = performed(shape, owner, ChangeStep::Count, events);
    assert(is_of(shape, run.0[i]));
    if requested is Err {
        lemma_a_refused_setting_stays_at_the_count(shape, owner, events, i);
    }
}

/// A change whose setting was refused never leaves the count.
proof fn lemma_a_refused_setting_stays_at_the_count(
    shape: ChangeShape,
    owner: RootOwner,
    events: Seq<ChangeEvent>,
    i: int,
)
    requires
        shape.refused is Some,
        0 <= i < performed(shape, owner, ChangeStep::Count, events).0.len(),
    ensures
        performed(shape, owner, ChangeStep::Count, events).0[i] is Count,
    decreases events.len(),
{
    if events.len() > 0 {
        match change_after(shape, owner, ChangeStep::Count, events[0]) {
            Err(_) => {},
            Ok(next) => {
                assert(next == ChangeStep::Count);
                let rest = performed(shape, owner, next, events.skip(1));
                let run = performed(shape, owner, ChangeStep::Count, events);
                if i > 0 {
                    assert(run.0[i] == rest.0[i - 1]);
                    lemma_a_refused_setting_stays_at_the_count(
                        shape,
                        owner,
                        events.skip(1),
                        i - 1,
                    );
                }
            },
        }
    }
}

/// A path is validated only as it was requested.
pub proof fn law_the_path_validated_is_the_one_requested(
    shape: ChangeShape,
    owner: RootOwner,
    events: Seq<ChangeEvent>,
    i: int,
)
    requires
        ({
            let run = performed(shape, owner, ChangeStep::Count, events);
            &&& 0 <= i < run.0.len()
            &&& run.0[i] is Validate
        }),
    ensures
        performed(shape, owner, ChangeStep::Count, events).0[i] matches ChangeStep::Validate {
            root,
        } && shape.path == Some(root),
{
    lemma_performed_is_of(shape, owner, ChangeStep::Count, events);
    let run = performed(shape, owner, ChangeStep::Count, events);
    assert(is_of(shape, run.0[i]));
}

/// Only a root that really moved is reported as left behind.
pub proof fn law_only_a_move_leaves_something_behind(
    previous: Option<String>,
    current: Option<String>,
)
    ensures
        left_behind(previous, current) is Some <==> previous is Some && text::opt_text(previous)
            != text::opt_text(current),
        left_behind(previous, current) is Some ==> left_behind(previous, current) == previous,
{
}

/// Whether some step of a run was a write that the store accepted.
pub open spec fn write_accepted(steps: Seq<ChangeStep>, events: Seq<ChangeEvent>) -> bool {
    exists|i: int|
        0 <= i < steps.len() && i < events.len() && #[trigger] steps[i] is Write
            && events[i] is Written
}

/// Whether some step of a run settled a setting that differed in nothing.
pub open spec fn found_unchanged(steps: Seq<ChangeStep>, events: Seq<ChangeEvent>) -> bool {
    exists|i: int|
        0 <= i < steps.len() && i < events.len() && #[trigger] steps[i] is Apply && events[i]
            == ChangeEvent::Applied(false)
}

/// A run from any step but the report reports only what was written, or what
/// differed in nothing.
proof fn lemma_a_report_is_earned(
    shape: ChangeShape,
    owner: RootOwner,
    step: ChangeStep,
    events: Seq<ChangeEvent>,
)
    requires
        step !is Report,
    ensures
        ({
            let run = performed(shape, owner, step, events);
            run.1 matches Ok(last) && last is Report ==> write_accepted(run.0, events)
                || found_unchanged(run.0, events)
        }),
    decreases events.len(),
{
    if events.len() > 0 {
        let run = performed(shape, owner, step, events);
        match change_after(shape, owner, step, events[0]) {
            Err(_) => {},
            Ok(next) => {
                let rest = performed(shape, owner, next, events.skip(1));
                assert(run.0[0] == step);
                if next is Report {
                    assert((step is Write && events[0] is Written) || (step is Apply && events[0]
                        == ChangeEvent::Applied(false)));
                } else {
                    lemma_a_report_is_earned(shape, owner, next, events.skip(1));
                    if run.1 matches Ok(last) && last is Report {
                        if write_accepted(rest.0, events.skip(1)) {
                            let i = choose|i: int|
                                0 <= i < rest.0.len() && i < events.skip(1).len()
                                    && #[trigger] rest.0[i] is Write && events.skip(1)[i]
                                    is Written;
                            assert(run.0[i + 1] == rest.0[i]);
                            assert(events[i + 1] == events.skip(1)[i]);
                        } else {
                            let i = choose|i: int|
                                0 <= i < rest.0.len() && i < events.skip(1).len()
                                    && #[trigger] rest.0[i] is Apply && events.skip(1)[i]
                                    == ChangeEvent::Applied(false);
                            assert(run.0[i + 1] == rest.0[i]);
                            assert(events[i + 1] == events.skip(1)[i]);
                        }
                    }
                }
            },
        }
    }
}

/// A change of the host's root settles nothing on a policy.
proof fn lemma_a_host_change_applies_nothing(
    previous: HostRoot,
    requested: Option<String>,
    owner: RootOwner,
    step: ChangeStep,
    events: Seq<ChangeEvent>,
    i: int,
)
    requires
        step !is Apply,
        0 <= i < performed(host_shape(previous, requested), owner, step, events).0.len(),
    ensures
        performed(host_shape(previous, requested), owner, step, events).0[i] !is Apply,
    decreases events.len(),
{
    let shape = host_shape(previous, requested);
    if events.len() > 0 && i > 0 {
        match change_after(shape, owner, step, events[0]) {
            Err(_) => {},
            Ok(next) => {
                let rest = performed(shape, owner, next, events.skip(1));
                assert(performed(shape, owner, step, events).0[i] == rest.0[i - 1]);
                lemma_a_host_change_applies_nothing(
                    previous,
                    requested,
                    owner,
                    next,
                    events.skip(1),
                    i - 1,
                );
            },
        }
    }
}

/// A change of the host's root is reported only once the store accepted its
/// write: in every run from the count on that comes to the report, a write was
/// performed and answered by [`ChangeEvent::Written`].
pub proof fn law_a_reported_root_was_written(
    previous: HostRoot,
    requested: Option<String>,
    owner: RootOwner,
    events: Seq<ChangeEvent>,
)
    ensures
        ({
            let run = performed(host_shape(previous, requested), owner, ChangeStep::Count, events);
            run.1 matches Ok(last) && last is Report ==> exists|i: int|
                0 <= i < run.0.len() && i < events.len() && #[trigger] run.0[i] is Write
                    && events[i] is Written
        }),
{
    let shape = host_shape(previous, requested);
    let run = performed(shape, owner, ChangeStep::Count, events);
    lemma_a_report_is_earned(shape, owner, ChangeStep::Count, events);
    if found_unchanged(run.0, events) {
        let i = choose|i: int|
            0 <= i < run.0.len() && i < events.len() && #[trigger] run.0[i] is Apply && events[i]
                == ChangeEvent::Applied(false);
        lemma_a_host_change_applies_nothing(previous, requested, owner, ChangeStep::Count, events, i);
    }
}

/// A change of a repository's workspace is reported only once the store accepted
/// its write, or the setting that was asked for was the one in force.
pub proof fn law_a_reported_workspace_was_written_or_in_force(
    policy: PolicyRow,
    kind: WorkspaceKind,
    path: Option<String>,
    refused: Option<String>,
    owner: RootOwner,
    events: Seq<ChangeEvent>,
)
    ensures
        ({
            let requested = requested_policy(policy.target, kind, path, refused);
            let shape = repository_shape(policy, requested);
            let run = performed(shape, owner, ChangeStep::Count, events);
            run.1 matches Ok(last) && last is Report ==> exists|i: int|
                0 <= i < run.0.len() && i < events.len() && ((#[trigger] run.0[i] is Write
                    && events[i] is Written) || (run.0[i] is Apply && events[i]
                    == ChangeEvent::Applied(false)))
        }),
{
    let requested = requested_policy(policy.target, kind, path, refused);
    let shape = repository_shape(policy, requested);
    lemma_a_report_is_earned(shape, owner, ChangeStep::Count, events);
}

/// A count that came out empty.
pub open spec fn nothing_counted() -> ChangeEvent {
    ChangeEvent::Counted(AffectedAttempts { active: 0, cleanup_blocked: 0 })
}

/// What a run whose every step goes well is told: the path is usable with this
/// leaf to create, if any, and the leaf is created.
pub open spec fn prepared(path: Option<String>, leaf: Option<String>) -> Seq<ChangeEvent> {
    match (path, leaf) {
        (None, _) => seq![nothing_counted()],
        (Some(_), None) => seq![nothing_counted(), ChangeEvent::Usable(None)],
        (Some(_), Some(made)) => seq![
            nothing_counted(),
            ChangeEvent::Usable(Some(made)),
            ChangeEvent::Created,
        ],
    }
}

/// What such a run does on the way: it validates the path it was asked for, and
/// creates the one leaf that is missing.
pub open spec fn preparing(path: Option<String>, leaf: Option<String>) -> Seq<ChangeStep> {
    match (path, leaf) {
        (None, _) => seq![ChangeStep::Count],
        (Some(root), None) => seq![ChangeStep::Count, ChangeStep::Validate { root }],
        (Some(root), Some(made)) => seq![
            ChangeStep::Count,
            ChangeStep::Validate { root },
            ChangeStep::Create { leaf: made },
        ],
    }
}

/// A change of the host's root that nothing stands in the way of does what it is
/// for: the path asked for is validated, its missing leaf is created, the new
/// override is written over the one that was read, and the leaf is reported.
pub proof fn law_a_root_that_can_be_had_is_stored(
    previous: HostRoot,
    requested: Option<String>,
    leaf: Option<String>,
    owner: RootOwner,
)
    requires
        requested is None ==> leaf is None,
    ensures
        ({
            let events = prepared(requested, leaf).push(ChangeEvent::Written);
            let run = performed(host_shape(previous, requested), owner, ChangeStep::Count, events);
            let write = ChangeStep::Write {
                created: leaf,
                write: StoreWrite::Root {
                    expected: previous.configured,
                    value: requested,
                    uncleaned: 0,
                },
            };
            &&& run.0 == preparing(requested, leaf).push(write)
            &&& run.1 == Ok::<ChangeStep, ErrorView>(ChangeStep::Report { created: leaf })
        }),
{
    let shape = host_shape(previous, requested);
    let events = prepared(requested, leaf).push(ChangeEvent::Written);
    let write = ChangeStep::Write {
        created: leaf,
        write: StoreWrite::Root { expected: previous.configured, value: requested, uncleaned: 0 },
    };
    reveal_with_fuel(performed, 5);
    let end: Seq<ChangeEvent> = seq![ChangeEvent::Written];
    assert(end.skip(1) =~= Seq::<ChangeEvent>::empty());
    match requested {
        None => {
            assert(events.skip(1) =~= end);
        },
        Some(root) => {
            match leaf {
                None => {
                    assert(events.skip(1).skip(1) =~= end);
                    assert(events.skip(1)[0] == ChangeEvent::Usable(None));
                },
                Some(made) => {
                    assert(events.skip(1).skip(1).skip(1) =~= end);
                    assert(events.skip(1)[0] == ChangeEvent::Usable(Some(made)));
                    assert(events.skip(1).skip(1)[0] == ChangeEvent::Created);
                },
            }
        },
    }
    let run = performed(shape, owner, ChangeStep::Count, events);
    assert(run.0 =~= preparing(requested, leaf).push(write));
}

/// A change of a repository's workspace that nothing stands in the way of does
/// what it is for: the path asked for is validated, its missing leaf is created,
/// the setting is settled, and where it differs from the one in force it is
/// written over the revision that was read.
pub proof fn law_a_workspace_that_can_be_had_is_stored(
    policy: PolicyRow,
    path: Option<String>,
    leaf: Option<String>,
    owner: RootOwner,
    differs: bool,
)
    requires
        path is None ==> leaf is None,
    ensures
        ({
            let kind = if path is Some {
                WorkspaceKind::Persistent
            } else {
                WorkspaceKind::Ephemeral
            };
            let setting = match path {
                Some(root) => WorkspacePolicy::Persistent { root },
                None => WorkspacePolicy::Ephemeral,
            };
            let shape = repository_shape(
                policy,
                requested_policy(policy.target, kind, path, None),
            );
            let events = prepared(path, leaf) + (if differs {
                seq![ChangeEvent::Applied(true), ChangeEvent::Written]
            } else {
                seq![ChangeEvent::Applied(false)]
            });
            let run = performed(shape, owner, ChangeStep::Count, events);
            let settle = ChangeStep::Apply { created: leaf, workspace: setting };
            let write = ChangeStep::Write {
                created: leaf,
                write: StoreWrite::Workspace {
                    expected_revision: policy.revision,
                    workspace: setting,
                    uncleaned: 0,
                },
            };
            &&& run.0 == preparing(path, leaf) + (if differs {
                seq![settle, write]
            } else {
                seq![settle]
            })
            &&& run.1 == Ok::<ChangeStep, ErrorView>(ChangeStep::Report { created: leaf })
        }),
{
    let kind = if path is Some {
        WorkspaceKind::Persistent
    } else {
        WorkspaceKind::Ephemeral
    };
    let shape = repository_shape(policy, requested_policy(policy.target, kind, path, None));
    let end: Seq<ChangeEvent> = if differs {
        seq![ChangeEvent::Applied(true), ChangeEvent::Written]
    } else {
        seq![ChangeEvent::Applied(false)]
    };
    let events = prepared(path, leaf) + end;
    reveal_with_fuel(performed, 6);
    if differs {
        assert(end.skip(1)[0] == ChangeEvent::Written);
        assert(end.skip(1).skip(1) =~= Seq::<ChangeEvent>::empty());
    } else {
        assert(end.skip(1) =~= Seq::<ChangeEvent>::empty());
    }
    match path {
        None => {
            assert(events.skip(1) =~= end);
        },
        Some(root) => {
            match leaf {
                None => {
                    assert(events.skip(1).skip(1) =~= end);
                    assert(events.skip(1)[0] == ChangeEvent::Usable(None));
                },
                Some(made) => {
                    assert(events.skip(1).skip(1).skip(1) =~= end);
                    assert(events.skip(1)[0] == ChangeEvent::Usable(Some(made)));
                    assert(events.skip(1).skip(1)[0] == ChangeEvent::Created);
                },
            }
        },
    }
}

/// A step that did not come off ends the change with its own reason: what could
/// not be read, validated, created, settled or written. Only a write that lost a
/// race is a conflict, and a directory that was created before it is named.
pub proof fn law_a_refused_step_says_why(
    shape: ChangeShape,
    owner: RootOwner,
    step: ChangeStep,
    reason: String,
    refusal: StoreRefusal,
)
    ensures
        change_after(shape, owner, step, ChangeEvent::Unreadable(reason)) matches Err(error)
            && error.class == Failure::LocalState && error.message
            == "cannot read this host's local database: "@ + reason@,
        step is Validate ==> (change_after(shape, owner, step, ChangeEvent::Unusable(reason))
            matches Err(error) && error.class == Failure::InvalidArgument && error.message
            == reason@ && error.remedy == Some(owner.remediation@)),
        step matches ChangeStep::Create { leaf } ==> (change_after(
            shape,
            owner,
            step,
            ChangeEvent::NotCreated(reason),
        ) matches Err(error) && error.class == Failure::LocalState && error.message
            == "cannot create "@ + leaf@ + ": "@ + reason@ && error.remedy == Some(
            owner.remediation@,
        )),
        step is Apply ==> (change_after(shape, owner, step, ChangeEvent::NotApplied(reason))
            matches Err(error) && error.class == Failure::InvalidArgument && error.message
            == reason@),
        step matches ChangeStep::Write { created, .. } ==> (change_after(
            shape,
            owner,
            step,
            ChangeEvent::NotWritten(refusal),
        ) matches Err(error) && error.class == (if refusal.conflict {
            Failure::Conflict
        } else {
            Failure::LocalState
        }) && refusal.reason@.is_prefix_of(error.message) && (created is None ==> error.message
            == refusal.reason@) && (created matches Some(leaf) ==> error.message == refusal.reason@
            + " The empty directory "@ + leaf@
            + " was created before the write was refused and has been left in place; remove it yourself if you do not want it."@)),
{
    if let ChangeStep::Write { created, .. } = step {
        if let Some(leaf) = created {
            assert(refusal.reason@ + (" The empty directory "@ + leaf@
                + " was created before the write was refused and has been left in place; remove it yourself if you do not want it."@)
                =~= refusal.reason@ + " The empty directory "@ + leaf@
                + " was created before the write was refused and has been left in place; remove it yourself if you do not want it."@);
        } else {
            assert(refusal.reason@ + Seq::<char>::empty() =~= refusal.reason@);
        }
    }
}

/// Only an empty count lets a change begin, and it then goes to the path that
/// was asked for, where one was.
pub proof fn law_only_an_empty_count_begins_a_change(
    previous: HostRoot,
    requested: Option<String>,
    owner: RootOwner,
    affected: AffectedAttempts,
)
    ensures
        ({
            let next = change_after(
                host_shape(previous, requested),
                owner,
                ChangeStep::Count,
                ChangeEvent::Counted(affected),
            );
            &&& next is Ok <==> affected.active == 0 && affected.cleanup_blocked == 0
            &&& next matches Err(error) ==> error.class == Failure::Conflict
            &&& next matches Ok(step) ==> match requested {
                Some(root) => step == (ChangeStep::Validate { root }),
                None => step is Write,
            }
        }),
{
}

/// The setting of a repository is the one that was asked for, and it can be had
/// exactly with a path for a persistent workspace that the target may keep, or
/// without one for an ephemeral workspace.
pub proof fn law_the_setting_is_the_one_asked_for(
    target: ScaleTarget,
    kind: WorkspaceKind,
    path: Option<String>,
    refused: Option<String>,
)
    ensures
        ({
            let setting = requested_policy(target, kind, path, refused);
            &&& setting is Ok <==> (if kind == WorkspaceKind::Persistent {
                path is Some && refused is None
            } else {
                path is None
            })
            &&& setting matches Ok(WorkspacePolicy::Persistent { root }) ==> kind
                == WorkspaceKind::Persistent && path == Some(root)
            &&& setting matches Ok(WorkspacePolicy::Ephemeral) ==> kind == WorkspaceKind::Ephemeral
            &&& setting matches Err(error) ==> error.class == Failure::InvalidArgument
            &&& kind == WorkspaceKind::Persistent && path is Some ==> (refused matches Some(reason)
                ==> setting->Err_0.message == reason@)
        }),
{
}

/// The policy that is found for a target is the first with its scope and its
/// name, and none is found only where there is none.
pub proof fn law_the_first_policy_of_a_target_is_found(
    policies: Seq<PolicyRow>,
    target: ScaleTarget,
    from: int,
)
    requires
        0 <= from <= policies.len(),
    ensures
        match first_policy(policies, target, from) {
            Some(at) => {
                &&& from <= at < policies.len()
                &&& policies[at].target.scope == target.scope
                &&& policies[at].target.slug@ == target.slug@
                &&& forall|i: int|
                    from <= i < at ==> (#[trigger] policies[i]).target.scope != target.scope
                        || policies[i].target.slug@ != target.slug@
            },
            None => forall|i: int|
                from <= i < policies.len() ==> (#[trigger] policies[i]).target.scope
                    != target.scope || policies[i].target.slug@ != target.slug@,
        },
    decreases policies.len() - from,
{
    if from < policies.len() && !(policies[from].target.scope == target.scope
        && policies[from].target.slug@ == target.slug@) {
        law_the_first_policy_of_a_target_is_found(policies, target, from + 1);
    }
}

/// Everything that a new root is checked against is a root that is configured:
/// the host's, or that of a repository which keeps its workspace.
pub proof fn law_only_configured_roots_stand_in_the_way(
    host: HostRoot,
    policies: Seq<PolicyRow>,
    k: int,
)
    requires
        0 <= k < overlap_set(host, policies).len(),
    ensures
        ({
            let entry = overlap_set(host, policies)[k];
            ||| entry.repository is None && host.effective == Some(entry.root)
            ||| exists|i: int|
                0 <= i < policies.len() && (#[trigger] policies[i]).workspace
                    == (WorkspacePolicy::Persistent { root: entry.root }) && entry.repository
                    == Some(policies[i].target.slug)
        }),
{
    let heads: int = if host.effective is Some {
        1
    } else {
        0
    };
    if k >= heads {
        lemma_persistent_roots_are_configured(policies, k - heads);
        assert(overlap_set(host, policies)[k] == persistent_roots(policies)[k - heads]);
    }
}

/// A persistent root is some policy's.
proof fn lemma_persistent_roots_are_configured(policies: Seq<PolicyRow>, k: int)
    requires
        0 <= k < persistent_roots(policies).len(),
    ensures
        exists|i: int|
            0 <= i < policies.len() && (#[trigger] policies[i]).workspace
                == (WorkspacePolicy::Persistent { root: persistent_roots(policies)[k].root })
                && persistent_roots(policies)[k].repository == Some(policies[i].target.slug),
    decreases policies.len(),
{
    let before = persistent_roots(policies.drop_last());
    if k < before.len() {
        lemma_persistent_roots_are_configured(policies.drop_last(), k);
        let i = choose|i: int|
            0 <= i < policies.drop_last().len() && (#[trigger] policies.drop_last()[i]).workspace
                == (WorkspacePolicy::Persistent { root: before[k].root }) && before[k].repository
                == Some(policies.drop_last()[i].target.slug);
        assert(policies[i] == policies.drop_last()[i]);
    } else {
        assert(policies[policies.len() - 1] == policies.last());
    }
}

/// A warning about a root is due exactly where it lies on a gated volume and a
/// registered service starts at boot; the host's own belief about that counts
/// only where the registration cannot be read. The program that is named is the
/// one the registration names.
pub proof fn law_a_warning_is_due_for_a_boot_service_on_a_gated_volume(
    on_gated_volume: bool,
    read: InstallRead,
    host_start_mode: StartMode,
)
    ensures
        ({
            let warning = access_warning(on_gated_volume, registration_of(read), host_start_mode);
            &&& read is Missing || read is Damaged ==> warning is None
            &&& read is NotPermitted ==> (warning is Some <==> on_gated_volume && host_start_mode
                == StartMode::Boot)
            &&& read is NotPermitted ==> (warning matches Some(said) ==> said.program is None)
            &&& read matches InstallRead::Found { start_mode, binary } ==> (warning is Some
                <==> on_gated_volume && start_mode == StartMode::Boot) && (warning matches Some(said)
                ==> said.program == Some(binary))
        }),
{
}

/// A path that cannot be used is the operator's to change, and is refused with the
/// reason and with what its owner would do about it.
pub proof fn law_an_unusable_path_is_the_operators(
    raw: Seq<char>,
    owner: RootOwner,
    reason: Seq<char>,
    target: ScaleTarget,
)
    ensures
        unparsed_error(raw, owner, reason).class == Failure::InvalidArgument,
        unparsed_error(raw, owner, reason).message == text::debug_text(raw)
            + " cannot be used as "@ + owner.shown@ + ": "@ + reason,
        unparsed_error(raw, owner, reason).remedy == Some(owner.remediation@),
        unusable_error(owner, reason).class == Failure::InvalidArgument,
        unusable_error(owner, reason).message == reason,
        unusable_error(owner, reason).remedy == Some(owner.remediation@),
        ephemeral_path_error(target).class == Failure::InvalidArgument,
        ephemeral_path_error(target).remedy == Some(
            "runner-manager repo set-workspace "@ + target.slug@ + " --mode ephemeral"@,
        ),
        no_policy_error(target).class == Failure::NotFound,
        no_policy_error(target).message == "no policy for "@ + target.slug@ + " exists"@,
{
}

/// A refused write is a conflict where somebody else wrote first, and this
/// machine's own trouble otherwise. It names the directory that was made for it
/// and left, and no other.
pub proof fn law_a_refused_write_is_told_apart(refusal: StoreRefusal, made: String)
    ensures
        write_error(refusal, None).class == (match refusal.conflict {
            true => Failure::Conflict,
            false => Failure::LocalState,
        }),
        write_error(refusal, Some(made)).class == write_error(refusal, None).class,
        write_error(refusal, None).message == refusal.reason@,
        exists|before: Seq<char>, after: Seq<char>|
            write_error(refusal, Some(made)).message == #[trigger] (refusal.reason@ + before + made@
                + after),
        write_error(refusal, None).remedy is Some,
{
    assert(refusal.reason@ + Seq::<char>::empty() =~= refusal.reason@);
    let whole = write_error(refusal, Some(made)).message;
    let after = " was created before the write was refused and has been left in place; remove it yourself if you do not want it."@;
    let text = leftover_text(Some(made@));
    let before = text.take(text.len() - after.len() - made@.len());
    assert(whole =~= refusal.reason@ + before + made@ + after);
}

/// The next attempt of a repository is shown under its own root where it keeps its
/// workspace, and under the host's otherwise.
pub proof fn law_the_root_shown_is_the_one_used(change: WorkspaceChange)
    ensures
        change.current matches WorkspacePolicy::Persistent { root } ==> change.shown_root()
            == root@,
        change.current is Ephemeral ==> change.shown_root() == change.host_root.shown(),
{
}

} // verus!
