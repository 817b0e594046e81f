//! Setting up a distribution as a runner host: eight stages, in order, each of
//! which either finds what it wants or moves the host there.
//!
//! Nothing is changed before every preflight question was answered. A rerun
//! after any failure is safe, and is the remedy.

use vstd::prelude::*;

use crate::failure;
use crate::failure::{CliError, ErrorView, Failure};
use crate::release;
use crate::release::parse_version;
use crate::text;
use crate::text::{chars_of, push_decimal, same_text, to_ascii_lowercase};
use crate::wsl_error;
use crate::wsl_error::{wsl_failure, WslError, WslErrorKind};
use crate::wsl_report::InstallOutcome;
use crate::wsl_status::{
    LinuxAnswer, LinuxStatus, Moment, Readiness, RegisteredTask, PRODUCT_MARKER,
};

verus! {

// ---------------------------------------------------------------------------
// Stages
// ---------------------------------------------------------------------------

/// The ordered stages of an install.
#[derive(Debug, Clone, Copy, PartialEq, Eq, PartialOrd, Ord, Structural)]
pub enum Stage {
    /// Every question, before the first answer is acted on.
    Preflight,
    /// The exact-version archive and its digest.
    Artifact,
    /// The replacement of the Linux binary.
    Binary,
    /// An existing credential is preserved; an absent one is issued.
    Credential,
    /// Only when a capacity was supplied.
    Capacity,
    /// The systemd unit.
    Service,
    /// The Windows login task.
    LifecycleTask,
    /// The record, and the read-back that decides whether this succeeded.
    Verification,
}

impl Stage {
    /// Every stage, in the order they run.
    pub const ALL: [Stage; 8] = [
        Stage::Preflight,
        Stage::Artifact,
        Stage::Binary,
        Stage::Credential,
        Stage::Capacity,
        Stage::Service,
        Stage::LifecycleTask,
        Stage::Verification,
    ];

    /// The word that a progress line and a failure both use.
    pub open spec fn name(self) -> Seq<char> {
        match self {
            Stage::Preflight => "preflight"@,
            Stage::Artifact => "release artifact"@,
            Stage::Binary => "Linux binary"@,
            Stage::Credential => "credential"@,
            Stage::Capacity => "capacity"@,
            Stage::Service => "Linux service"@,
            Stage::LifecycleTask => "Windows lifecycle task"@,
            Stage::Verification => "verification"@,
        }
    }

    /// The word that a progress line and a failure both use.
    pub fn label(self) -> (label: &'static str)
        ensures
            label@ == self.name(),
    {
        match self {
            Stage::Preflight => "preflight",
            Stage::Artifact => "release artifact",
            Stage::Binary => "Linux binary",
            Stage::Credential => "credential",
            Stage::Capacity => "capacity",
            Stage::Service => "Linux service",
            Stage::LifecycleTask => "Windows lifecycle task",
            Stage::Verification => "verification",
        }
    }

    /// The place of a stage in the order.
    pub open spec fn place(self) -> nat {
        match self {
            Stage::Preflight => 0,
            Stage::Artifact => 1,
            Stage::Binary => 2,
            Stage::Credential => 3,
            Stage::Capacity => 4,
            Stage::Service => 5,
            Stage::LifecycleTask => 6,
            Stage::Verification => 7,
        }
    }
}

/// No two stages share a label, so a failure names exactly one.
pub proof fn law_every_stage_has_a_label_of_its_own(left: Stage, right: Stage)
    requires
        left.name() == right.name(),
    ensures
        left == right,
{
    reveal_strlit("preflight");
    reveal_strlit("release artifact");
    reveal_strlit("Linux binary");
    reveal_strlit("credential");
    reveal_strlit("capacity");
    reveal_strlit("Linux service");
    reveal_strlit("Windows lifecycle task");
    reveal_strlit("verification");
    assert("preflight"@.len() == 9);
    assert("release artifact"@.len() == 16);
    assert("Linux binary"@.len() == 12 && "Linux binary"@[0] == 'L');
    assert("credential"@.len() == 10);
    assert("capacity"@.len() == 8);
    assert("Linux service"@.len() == 13);
    assert("Windows lifecycle task"@.len() == 22);
    assert("verification"@.len() == 12 && "verification"@[0] == 'v');
    match left {
        Stage::Binary => assert(right.name().len() == 12 && right.name()[0] == 'L'),
        Stage::Verification => assert(right.name().len() == 12 && right.name()[0] == 'v'),
        _ => {},
    }
}

/// The sentence that a failure in a stage opens with: was anything changed?
pub open spec fn prefix_text(stage: Stage) -> Seq<char> {
    match stage {
        Stage::Preflight => Stage::Preflight.name()
            + " failed, so nothing has been changed and no credential was issued"@,
        other => "the "@ + other.name()
            + " stage failed; earlier stages stand and `wsl install` is safe to run again once this is fixed"@,
    }
}

/// The sentence that a failure in a stage opens with.
pub fn stage_prefix(stage: Stage) -> (prefix: String)
    ensures
        prefix@ == prefix_text(stage),
{
    if stage == Stage::Preflight {
        let mut prefix = Stage::Preflight.label().to_owned();
        prefix.append(" failed, so nothing has been changed and no credential was issued");
        prefix
    } else {
        let mut prefix = "the ".to_owned();
        prefix.append(stage.label());
        prefix.append(
            " stage failed; earlier stages stand and `wsl install` is safe to run again once this is fixed",
        );
        prefix
    }
}

/// Where to look after a failure in the middle of an install.
pub open spec fn look_at_status() -> Seq<char> {
    "runner-manager wsl status --distribution <NAME>"@
}

/// A failure, with the stage it happened in.
pub open spec fn staged(stage: Stage, error: ErrorView) -> ErrorView {
    ErrorView {
        class: error.class,
        message: prefix_text(stage) + ": "@ + error.message,
        remedy: match error.remedy {
            Some(remedy) => Some(remedy),
            None => Some(look_at_status()),
        },
    }
}

/// Puts a stage's sentence in front of a failure, keeping its class and remedy.
pub fn in_stage(stage: Stage, error: CliError) -> (failed: CliError)
    ensures
        failed@ == staged(stage, error@),
{
    let mut message = stage_prefix(stage);
    message.append(": ");
    message.append(error.message());
    match error.remedy() {
        Some(remedy) => CliError::with_remedy(error.class(), message, remedy),
        None => CliError::with_remedy(
            error.class(),
            message,
            "runner-manager wsl status --distribution <NAME>",
        ),
    }
}

/// A failure that is an install's own, in a stage, with where to look.
pub open spec fn own_error(class: Failure, stage: Stage, said: Seq<char>) -> ErrorView {
    failure::error_with(class, prefix_text(stage) + said, look_at_status())
}

/// Reports a failure that is an install's own.
fn own_failure(class: Failure, stage: Stage, said: &str) -> (failed: CliError)
    ensures
        failed@ == own_error(class, stage, said@),
{
    let mut message = stage_prefix(stage);
    message.append(said);
    CliError::with_remedy(class, message, "runner-manager wsl status --distribution <NAME>")
}

// ---------------------------------------------------------------------------
// Which releases hand over
// ---------------------------------------------------------------------------

/// Whether a release hands its running service over by itself: a plain version
/// from 0.1.8 on.
pub open spec fn hands_over(version: Option<Seq<char>>) -> bool {
    match version {
        None => false,
        Some(raw) => !raw.contains('-') && !raw.contains('+') && release::version_of(raw) is Some
            && !release::later((0u64, 1u64, 8u64), release::version_of(raw)->0),
    }
}

/// Whether a text holds a character.
fn holds_char(raw: &str, wanted: char) -> (found: bool)
    ensures
        found == raw@.contains(wanted),
{
    let chars = chars_of(raw);
    let mut i: usize = 0;
    while i < chars.len()
        invariant
            i <= chars@.len(),
            chars@ == raw@,
            forall|k: int| 0 <= k < i ==> #[trigger] raw@[k] != wanted,
        decreases chars.len() - i,
    {
        if chars[i] == wanted {
            assert(raw@[i as int] == wanted);
            return true;
        }
        i = i + 1;
    }
    false
}

/// Whether a release hands its running service over by itself. A form that is
/// not known is taken for one that does not.
pub fn supports_cooperative_service_handover(version: &Option<String>) -> (supported: bool)
    ensures
        supported == hands_over(text::opt_text(*version)),
{
    match version {
        None => false,
        Some(raw) => {
            if holds_char(raw.as_str(), '-') || holds_char(raw.as_str(), '+') {
                return false;
            }
            match parse_version(raw.as_str()) {
                None => false,
                Some(parsed) => parsed.0 > 0 || parsed.1 > 1 || (parsed.1 == 1 && parsed.2 >= 8),
            }
        },
    }
}

// ---------------------------------------------------------------------------
// Steps, events and progress
// ---------------------------------------------------------------------------

/// One thing that an install does, and waits for the outcome of.
#[derive(Debug, Clone, Copy, PartialEq, Eq, Structural)]
pub enum InstallStep {
    /// Ask every preflight question.
    Preflight,
    /// Derive the lifecycle task's name.
    NameTask,
    /// Look for a task of that name.
    QueryTask,
    /// Spell out the refusal of a task that belongs to somebody else.
    RefuseForeignTask,
    /// Find out which archive the architecture needs.
    ChooseTarget,
    /// Fetch the checksum document.
    ReadChecksums,
    /// Pick this build's exact version out of it.
    SelectRelease,
    /// Download the archive.
    Download,
    /// Ask the binary that is there for its status.
    ReadBefore,
    /// Ask whether the unit is active.
    AskActiveBefore,
    /// Put the binary in place.
    InstallBinary,
    /// Ask the binary which version the active service runs.
    ReadServiceCopy,
    /// Ask for the status during a handover.
    HandoverStatus,
    /// Ask whether the unit is active during a handover.
    HandoverActive,
    /// Ask the unit's main process for its version.
    HandoverMain,
    /// Wait a moment.
    HandoverWait,
    /// Ask whether the distribution holds a credential.
    ReadCredential,
    /// Issue one, and hand it over on a pipe.
    IssueCredential,
    /// Set the capacity that was supplied.
    SetCapacity,
    /// Ask whether the unit is enabled.
    AskEnabled,
    /// Ask whether the unit is active.
    AskActive,
    /// Enable the active unit.
    EnableUnit,
    /// Start the enabled unit.
    StartAdopted,
    /// Install the service.
    InstallService,
    /// Start the installed service.
    StartInstalled,
    /// Register the lifecycle task.
    RegisterTask,
    /// Start the lifecycle task.
    StartTask,
    /// Write the provider record.
    WriteRecord,
    /// Probe the host and report.
    ReadBack,
}

/// The stage that a step belongs to.
pub open spec fn stage_of(step: InstallStep) -> Stage {
    match step {
        InstallStep::Preflight | InstallStep::NameTask | InstallStep::QueryTask
        | InstallStep::RefuseForeignTask => Stage::Preflight,
        InstallStep::ChooseTarget | InstallStep::ReadChecksums | InstallStep::SelectRelease
        | InstallStep::Download => Stage::Artifact,
        InstallStep::ReadBefore | InstallStep::AskActiveBefore | InstallStep::InstallBinary
        | InstallStep::ReadServiceCopy | InstallStep::HandoverStatus | InstallStep::HandoverActive
        | InstallStep::HandoverMain | InstallStep::HandoverWait => Stage::Binary,
        InstallStep::ReadCredential | InstallStep::IssueCredential => Stage::Credential,
        InstallStep::SetCapacity => Stage::Capacity,
        InstallStep::AskEnabled | InstallStep::AskActive | InstallStep::EnableUnit
        | InstallStep::StartAdopted | InstallStep::InstallService | InstallStep::StartInstalled =>
        Stage::Service,
        InstallStep::RegisterTask | InstallStep::StartTask => Stage::LifecycleTask,
        InstallStep::WriteRecord | InstallStep::ReadBack => Stage::Verification,
    }
}

/// The stage that a step belongs to.
pub fn stage_of_step(step: InstallStep) -> (stage: Stage)
    ensures
        stage == stage_of(step),
{
    match step {
        InstallStep::Preflight | InstallStep::NameTask | InstallStep::QueryTask
        | InstallStep::RefuseForeignTask => Stage::Preflight,
        InstallStep::ChooseTarget | InstallStep::ReadChecksums | InstallStep::SelectRelease
        | InstallStep::Download => Stage::Artifact,
        InstallStep::ReadBefore | InstallStep::AskActiveBefore | InstallStep::InstallBinary
        | InstallStep::ReadServiceCopy | InstallStep::HandoverStatus | InstallStep::HandoverActive
        | InstallStep::HandoverMain | InstallStep::HandoverWait => Stage::Binary,
        InstallStep::ReadCredential | InstallStep::IssueCredential => Stage::Credential,
        InstallStep::SetCapacity => Stage::Capacity,
        InstallStep::AskEnabled | InstallStep::AskActive | InstallStep::EnableUnit
        | InstallStep::StartAdopted | InstallStep::InstallService | InstallStep::StartInstalled =>
        Stage::Service,
        InstallStep::RegisterTask | InstallStep::StartTask => Stage::LifecycleTask,
        InstallStep::WriteRecord | InstallStep::ReadBack => Stage::Verification,
    }
}

/// What a step came to.
#[derive(Debug)]
pub enum InstallEvent {
    /// It succeeded, and there is nothing more to say about it.
    Done,
    /// The WSL host, the release or the task scheduler refused.
    Refused(WslError),
    /// The release origin or the device flow failed.
    Failed(CliError),
    /// No temporary directory could be made, for this reason.
    NoWorkDirectory(String),
    /// Every preflight question was answered.
    Ready(Readiness),
    /// The lifecycle task is called this.
    TaskNamed(String),
    /// There is such a task, or there is none.
    TaskFound(Option<RegisteredTask>),
    /// The refusal of a foreign task reads like this.
    Spelled(String),
    /// The archive is called this.
    Selected(String),
    /// The Linux binary answered this.
    Answered(LinuxAnswer),
    /// `systemctl` answered this word.
    Word(Option<String>),
    /// The main process is of this version.
    MainVersion(Option<String>),
    /// A credential was issued: how it is described, and whether the
    /// distribution took it.
    Issued { shown: String, delivered: bool },
}

/// How far an install is, and what it has learned.
#[derive(Debug)]
pub struct Progress {
    pub step: InstallStep,
    pub readiness: Option<Readiness>,
    pub task_name: String,
    /// What a task of that name starts, when it belongs to somebody else.
    pub foreign_command: Option<String>,
    pub asset: String,
    /// The version that was there before.
    pub version_before: Option<String>,
    /// The version that the service ran before.
    pub service_before: Option<String>,
    pub service_was_active: bool,
    /// Whether the status during a handover named the new version.
    pub handed_over: bool,
    pub unit_enabled: bool,
    pub binary_replaced: bool,
    pub credential_issued: bool,
    pub service_installed: bool,
}

/// What was said, and how far the install is now.
#[derive(Debug)]
pub struct InstallMove {
    pub said: String,
    pub next: Result<Progress, CliError>,
}

/// What an [`InstallMove`] says.
pub struct MoveView {
    pub said: Seq<char>,
    pub next: Result<Progress, ErrorView>,
}

impl View for InstallMove {
    type V = MoveView;

    open spec fn view(&self) -> MoveView {
        MoveView {
            said: self.said@,
            next: match self.next {
                Ok(progress) => Ok(progress),
                Err(error) => Err(error@),
            },
        }
    }
}

/// Going on without a word.
pub open spec fn quietly(progress: Progress) -> MoveView {
    MoveView { said: Seq::empty(), next: Ok(progress) }
}

/// Going on with a line.
pub open spec fn saying(said: Seq<char>, progress: Progress) -> MoveView {
    MoveView { said, next: Ok(progress) }
}

/// Stopping.
pub open spec fn stopping(error: ErrorView) -> MoveView {
    MoveView { said: Seq::empty(), next: Err(error) }
}

/// The same progress, at another step.
pub open spec fn at(progress: Progress, step: InstallStep) -> Progress {
    Progress { step, ..progress }
}

/// Goes on without a word.
fn go(progress: Progress) -> (next: InstallMove)
    ensures
        next@ == quietly(progress),
{
    InstallMove { said: String::new(), next: Ok(progress) }
}

/// Goes on with a line.
fn say(said: String, progress: Progress) -> (next: InstallMove)
    ensures
        next@ == saying(said@, progress),
{
    InstallMove { said, next: Ok(progress) }
}

/// Stops.
fn stop(error: CliError) -> (next: InstallMove)
    ensures
        next@ == stopping(error@),
{
    InstallMove { said: String::new(), next: Err(error) }
}

/// Whether an optional word is this word.
pub open spec fn is_word(word: Option<String>, wanted: Seq<char>) -> bool {
    word matches Some(found) && found@ == wanted
}

/// Whether an optional word is this word.
fn word_is(word: &Option<String>, wanted: &str) -> (yes: bool)
    ensures
        yes == is_word(*word, wanted@),
{
    match word {
        Some(found) => same_text(found.as_str(), wanted),
        None => false,
    }
}

/// The name of the distribution, once it is known.
pub open spec fn distribution_of(progress: Progress) -> Seq<char> {
    match progress.readiness {
        Some(ready) => ready.name@,
        None => Seq::empty(),
    }
}

impl Progress {
    /// Begins an install.
    pub fn begin() -> (progress: Progress)
        ensures
            progress.step == InstallStep::Preflight,
            progress.readiness is None,
            progress.task_name@.len() == 0,
            progress.foreign_command is None,
            progress.asset@.len() == 0,
            progress.version_before is None,
            progress.service_before is None,
            !progress.service_was_active,
            !progress.handed_over,
            !progress.unit_enabled,
            !progress.binary_replaced,
            !progress.credential_issued,
            !progress.service_installed,
    {
        Progress {
            step: InstallStep::Preflight,
            readiness: None,
            task_name: String::new(),
            foreign_command: None,
            asset: String::new(),
            version_before: None,
            service_before: None,
            service_was_active: false,
            handed_over: false,
            unit_enabled: false,
            binary_replaced: false,
            credential_issued: false,
            service_installed: false,
        }
    }

    /// The name of the distribution, once it is known.
    fn distribution(&self) -> (name: String)
        ensures
            name@ == distribution_of(*self),
    {
        match &self.readiness {
            Some(ready) => ready.name.clone(),
            None => String::new(),
        }
    }
}

/// An install: what it is to put where.
#[derive(Debug, Clone)]
pub struct Provisioner {
    /// The version to install, which is this build's own.
    pub version: String,
    /// Where the binary goes inside the distribution.
    pub linux_binary: String,
    /// The systemd unit.
    pub unit: String,
    /// Where the release comes from, as it is named.
    pub assets: String,
    /// The capacity that was supplied, if one was.
    pub capacity: Option<u16>,
}

/// A lifecycle task to register: its name, the distribution that it keeps open,
/// and the binary inside that it starts.
#[derive(Debug, Clone)]
pub struct TaskRegistration {
    pub distribution: String,
    pub task_name: String,
    pub linux_binary: String,
}

/// What is written down on this machine about a managed distribution.
#[derive(Debug, Clone)]
pub struct ProviderRecord {
    pub distribution: String,
    pub task_name: String,
    pub installed_version: String,
    pub last_verified: Moment,
}

/// Whether a task is the one that an install registers.
pub open spec fn registers(task: TaskRegistration, plan: Provisioner, progress: Progress) -> bool {
    &&& task.distribution@ == distribution_of(progress)
    &&& task.task_name@ == progress.task_name@
    &&& task.linux_binary@ == plan.linux_binary@
}

/// Whether a record is the one that an install writes at this moment.
pub open spec fn records(
    record: ProviderRecord,
    plan: Provisioner,
    progress: Progress,
    now: Moment,
) -> bool {
    &&& record.distribution@ == distribution_of(progress)
    &&& record.task_name@ == progress.task_name@
    &&& record.installed_version@ == plan.version@
    &&& record.last_verified == now
}

// ---------------------------------------------------------------------------
// Preflight and artifact
// ---------------------------------------------------------------------------

/// What is wrong with a task that belongs to somebody else and starts this
/// command.
pub open spec fn foreign_task_detail(command: Seq<char>) -> Seq<char> {
    "a task of this name already exists, its description does not identify it as this product's ("@
        + PRODUCT_MARKER@ + "), and it starts `"@ + command
        + "`. Nothing has been changed. Rename or remove it yourself if it is the hand-created keep-alive this feature replaces."@
}

/// Says what is wrong with a task that belongs to somebody else.
fn spell_detail(command: &str) -> (detail: String)
    ensures
        detail@ == foreign_task_detail(command@),
{
    let mut detail =
        "a task of this name already exists, its description does not identify it as this product's (".to_owned();
    detail.append(PRODUCT_MARKER);
    detail.append("), and it starts `");
    detail.append(command);
    detail.append(
        "`. Nothing has been changed. Rename or remove it yourself if it is the hand-created keep-alive this feature replaces.",
    );
    detail
}

impl Progress {
    /// What is wrong with the task that stands in the way, when one does: what
    /// [`InstallStep::RefuseForeignTask`] spells out.
    pub fn foreign_detail(&self) -> (detail: Option<String>)
        ensures
            text::opt_text(detail) == (match self.foreign_command {
                Some(command) => Some(foreign_task_detail(command@)),
                None => None,
            }),
    {
        match &self.foreign_command {
            Some(command) => Some(spell_detail(command.as_str())),
            None => None,
        }
    }
}

/// What an install says once the preflight is through.
pub open spec fn header_text(plan: Provisioner, readiness: Option<Readiness>) -> Seq<char> {
    match readiness {
        Some(ready) => "runner-manager wsl install\n  distribution              "@ + ready.name@
            + "\n  preflight                 WSL"@ + text::decimal(ready.wsl_version as nat) + ", "@
            + text::lower_text(ready.architecture@) + " ("@ + ready.machine@ + "), systemd "@
            + ready.systemd@ + "\n  version to install        "@ + plan.version@
            + "\n  release assets            "@ + plan.assets@ + "\n"@,
        None => Seq::empty(),
    }
}

/// What follows a step of the preflight.
pub open spec fn preflight_after(
    plan: Provisioner,
    progress: Progress,
    event: InstallEvent,
) -> MoveView {
    match (progress.step, event) {
        (InstallStep::Preflight, InstallEvent::Ready(readiness)) => quietly(
            Progress {
                readiness: Some(readiness),
                step: InstallStep::NameTask,
                ..progress
            },
        ),
        (InstallStep::NameTask, InstallEvent::TaskNamed(name)) => quietly(
            Progress { task_name: name, step: InstallStep::QueryTask, ..progress },
        ),
        (InstallStep::QueryTask, InstallEvent::TaskFound(task)) => match task {
            Some(found) if !found.product_owned => quietly(
                Progress {
                    foreign_command: Some(found.command),
                    step: InstallStep::RefuseForeignTask,
                    ..progress
                },
            ),
            _ => saying(
                header_text(plan, progress.readiness),
                at(progress, InstallStep::ChooseTarget),
            ),
        },
        (InstallStep::RefuseForeignTask, InstallEvent::Spelled(message)) => stopping(
            staged(
                Stage::Preflight,
                wsl_error::reported(WslError { kind: WslErrorKind::ForeignTask, message }),
            ),
        ),
        _ => quietly(progress),
    }
}

/// What follows a step about the release.
pub open spec fn artifact_after(progress: Progress, event: InstallEvent) -> MoveView {
    match (progress.step, event) {
        (InstallStep::ChooseTarget, InstallEvent::Done) => quietly(
            at(progress, InstallStep::ReadChecksums),
        ),
        (InstallStep::ReadChecksums, InstallEvent::Done) => quietly(
            at(progress, InstallStep::SelectRelease),
        ),
        (InstallStep::SelectRelease, InstallEvent::Selected(asset)) => quietly(
            Progress { asset, step: InstallStep::Download, ..progress },
        ),
        (InstallStep::Download, InstallEvent::Done) => quietly(
            at(progress, InstallStep::ReadBefore),
        ),
        (InstallStep::Download, InstallEvent::NoWorkDirectory(reason)) => stopping(
            failure::plain_error(
                Failure::LocalState,
                "cannot create a temporary directory to download into: "@ + reason@,
            ),
        ),
        _ => quietly(progress),
    }
}

// ---------------------------------------------------------------------------
// The binary
// ---------------------------------------------------------------------------

/// What follows a binary that is in place.
pub open spec fn once_in_place(progress: Progress) -> Progress {
    at(
        progress,
        if progress.service_was_active {
            InstallStep::ReadServiceCopy
        } else {
            InstallStep::ReadCredential
        },
    )
}

/// The refusal to touch a service that cannot hand itself over.
pub open spec fn legacy_error(
    plan: Provisioner,
    service: Option<Seq<char>>,
    what: Seq<char>,
) -> ErrorView {
    failure::error_with(
        Failure::WslProvisioning,
        "the active systemd unit "@ + plan.unit@ + " runs service binary "@ + (match service {
            Some(version) => version,
            None => "of an unknown version"@,
        }) + " which predates the cooperative upgrade handover. "@ + what,
        look_at_status(),
    )
}

/// Reports a service that cannot hand itself over.
fn legacy_failure(plan: &Provisioner, service: &Option<String>, what: &str) -> (failed: CliError)
    ensures
        failed@ == legacy_error(*plan, text::opt_text(*service), what@),
{
    let mut message = "the active systemd unit ".to_owned();
    message.append(plan.unit.as_str());
    message.append(" runs service binary ");
    match service {
        Some(version) => {
            message.append(version.as_str());
        },
        None => {
            message.append("of an unknown version");
        },
    }
    message.append(" which predates the cooperative upgrade handover. ");
    message.append(what);
    CliError::with_remedy(
        Failure::WslProvisioning,
        message,
        "runner-manager wsl status --distribution <NAME>",
    )
}

/// Whether an active service of a known version must not be replaced.
pub open spec fn is_legacy(plan: Provisioner, service: Option<String>) -> bool {
    service matches Some(version) && version@ != plan.version@ && !hands_over(Some(version@))
}

/// What follows the question whether the unit was active before.
pub open spec fn before_binary(
    plan: Provisioner,
    progress: Progress,
    word: Option<String>,
) -> MoveView {
    let active = is_word(word, "active"@);
    let replaced = !is_word(progress.version_before, plan.version@);
    let now = Progress {
        service_was_active: active,
        binary_replaced: replaced,
        ..progress
    };
    if active && is_legacy(plan, progress.service_before) {
        stopping(
            legacy_error(
                plan,
                text::opt_text(progress.service_before),
                "It was not stopped, and neither the Linux binary nor its service copy was replaced."@,
            ),
        )
    } else if replaced {
        saying(
            "Installing "@ + progress.asset@ + " into "@ + distribution_of(progress) + "\n"@,
            at(now, InstallStep::InstallBinary),
        )
    } else {
        saying(
            distribution_of(progress) + " already runs runner-manager "@ + plan.version@
                + "; the binary is left alone.\n"@,
            once_in_place(now),
        )
    }
}

/// What an answer says the version and the service's version are.
pub open spec fn versions_in(answer: LinuxAnswer) -> (Option<String>, Option<String>) {
    match answer {
        LinuxAnswer::Reported(status) => (Some(status.version), status.service_binary_version),
        _ => (None, None),
    }
}

/// What follows the question which version the active service runs.
pub open spec fn after_service_copy(
    plan: Provisioner,
    progress: Progress,
    answer: LinuxAnswer,
) -> MoveView {
    match answer {
        LinuxAnswer::Reported(status) => if is_word(
            status.service_binary_version,
            plan.version@,
        ) {
            quietly(at(progress, InstallStep::ReadCredential))
        } else if !hands_over(text::opt_text(status.service_binary_version)) {
            stopping(
                legacy_error(
                    plan,
                    text::opt_text(status.service_binary_version),
                    "It was not stopped and its private copy was not replaced; the Linux source binary is safe to leave in place."@,
                ),
            )
        } else {
            saying(
                "The active service copy is taking its cooperative upgrade handover: it accepts no new jobs and waits for its local journal to drain before systemd restarts it.\n"@,
                at(progress, InstallStep::HandoverStatus),
            )
        },
        LinuxAnswer::Unusable(why) => stopping(
            own_error(
                Failure::WslProvisioning,
                Stage::Service,
                ": the updated Linux binary would not report the active service copy, so this cannot prove that it supports a safe handover: "@
                    + why@,
            ),
        ),
        LinuxAnswer::Unreadable(why) => stopping(
            own_error(
                Failure::WslProvisioning,
                Stage::Service,
                ": cannot read the active service copy after replacing the Linux source binary: "@
                    + why@,
            ),
        ),
    }
}

/// What follows a step about the binary.
pub open spec fn binary_after(
    plan: Provisioner,
    progress: Progress,
    event: InstallEvent,
) -> MoveView {
    match (progress.step, event) {
        (InstallStep::ReadBefore, InstallEvent::Answered(answer)) => quietly(
            Progress {
                version_before: versions_in(answer).0,
                service_before: versions_in(answer).1,
                step: InstallStep::AskActiveBefore,
                ..progress
            },
        ),
        (InstallStep::AskActiveBefore, InstallEvent::Word(word)) => before_binary(
            plan,
            progress,
            word,
        ),
        (InstallStep::InstallBinary, InstallEvent::Done) => quietly(once_in_place(progress)),
        (InstallStep::ReadServiceCopy, InstallEvent::Answered(answer)) => after_service_copy(
            plan,
            progress,
            answer,
        ),
        _ => quietly(progress),
    }
}

// ---------------------------------------------------------------------------
// The handover
// ---------------------------------------------------------------------------

/// What follows a step of a handover. It is over when the status names the new
/// version, the unit is active, and the unit's own main process is the new one;
/// until then it is only watched.
pub open spec fn handover_after(
    plan: Provisioner,
    progress: Progress,
    event: InstallEvent,
) -> MoveView {
    match (progress.step, event) {
        (InstallStep::HandoverStatus, InstallEvent::Answered(answer)) => match answer {
            LinuxAnswer::Unreadable(why) => stopping(
                failure::plain_error(
                    Failure::WslProvisioning,
                    prefix_text(Stage::Service)
                        + ": cannot observe the cooperative service handover: "@ + why@,
                ),
            ),
            _ => quietly(
                Progress {
                    handed_over: is_word(versions_in(answer).1, plan.version@),
                    step: InstallStep::HandoverActive,
                    ..progress
                },
            ),
        },
        (InstallStep::HandoverActive, InstallEvent::Word(word)) => if is_word(word, "failed"@) {
            stopping(
                own_error(
                    Failure::WslProvisioning,
                    Stage::Service,
                    ": the cooperative handover stopped "@ + plan.unit@
                        + " but systemd reported it failed before the replacement could resume. No forced stop was used."@,
                ),
            )
        } else if progress.handed_over && is_word(word, "active"@) {
            quietly(at(progress, InstallStep::HandoverMain))
        } else {
            quietly(at(progress, InstallStep::HandoverWait))
        },
        (InstallStep::HandoverMain, InstallEvent::MainVersion(version)) => if is_word(
            version,
            plan.version@,
        ) {
            saying(
                "The service drained, replaced its private copy, and systemd restarted it.\n"@,
                at(progress, InstallStep::ReadCredential),
            )
        } else {
            quietly(at(progress, InstallStep::HandoverWait))
        },
        (InstallStep::HandoverWait, InstallEvent::Done) => quietly(
            at(progress, InstallStep::HandoverStatus),
        ),
        _ => quietly(progress),
    }
}

// ---------------------------------------------------------------------------
// The credential and the capacity
// ---------------------------------------------------------------------------

/// What follows a settled credential.
pub open spec fn once_signed_in(plan: Provisioner, progress: Progress) -> Progress {
    at(
        progress,
        if plan.capacity is Some {
            InstallStep::SetCapacity
        } else {
            InstallStep::AskEnabled
        },
    )
}

/// What follows the question whether the distribution holds a credential. One is
/// issued only when the distribution said that it holds none and could read its
/// own store.
pub open spec fn after_credential_read(
    plan: Provisioner,
    progress: Progress,
    answer: LinuxAnswer,
) -> MoveView {
    match answer {
        LinuxAnswer::Unreadable(problem) => stopping(
            failure::plain_error(
                Failure::WslProvisioning,
                prefix_text(Stage::Credential) + ": "@ + problem@,
            ),
        ),
        LinuxAnswer::Unusable(why) => stopping(
            own_error(
                Failure::WslProvisioning,
                Stage::Credential,
                ": the runner-manager at "@ + plan.linux_binary@ + " in "@ + distribution_of(
                    progress,
                )
                    + " would not answer `status --json`, so this cannot tell whether the distribution already holds a credential and will not issue one blind: "@
                    + why@,
            ),
        ),
        LinuxAnswer::Reported(status) => if status.credential_present {
            saying(
                distribution_of(progress)
                    + " already holds its own credential; it is left untouched.\n"@,
                once_signed_in(plan, progress),
            )
        } else {
            match status.credential_unreadable {
                Some(why) => stopping(
                    own_error(
                        Failure::SecretStore,
                        Stage::Credential,
                        ": "@ + distribution_of(progress)
                            + "'s credential store could not be read, so this cannot tell whether it already holds a credential and will not issue one over a value it cannot see: "@
                            + why@,
                    ),
                ),
                None => saying(
                    distribution_of(progress)
                        + " holds no credential of its own, so this signs in for it now. The credential is issued to the distribution and is never stored here.\n"@,
                    at(progress, InstallStep::IssueCredential),
                ),
            }
        },
    }
}

/// What follows a step about the credential or the capacity.
pub open spec fn credential_after(
    plan: Provisioner,
    progress: Progress,
    event: InstallEvent,
) -> MoveView {
    match (progress.step, event) {
        (InstallStep::ReadCredential, InstallEvent::Answered(answer)) => after_credential_read(
            plan,
            progress,
            answer,
        ),
        (InstallStep::IssueCredential, InstallEvent::Issued { shown, delivered }) => saying(
            "Credential delivered. "@ + shown@ + "\n"@,
            once_signed_in(plan, Progress { credential_issued: delivered, ..progress }),
        ),
        (InstallStep::SetCapacity, InstallEvent::Done) => saying(
            match plan.capacity {
                Some(capacity) => "Capacity set to "@ + text::decimal(capacity as nat) + ".\n"@,
                None => Seq::empty(),
            },
            at(progress, InstallStep::AskEnabled),
        ),
        _ => quietly(progress),
    }
}

// ---------------------------------------------------------------------------
// The service, the task and the record
// ---------------------------------------------------------------------------

/// What follows a step about the service. An active unit is adopted and never
/// replaced; an enabled one is started; only a host with neither gets a new
/// service.
pub open spec fn service_after(
    plan: Provisioner,
    progress: Progress,
    event: InstallEvent,
) -> MoveView {
    match (progress.step, event) {
        (InstallStep::AskEnabled, InstallEvent::Word(word)) => quietly(
            Progress {
                unit_enabled: is_word(word, "enabled"@),
                step: InstallStep::AskActive,
                ..progress
            },
        ),
        (InstallStep::AskActive, InstallEvent::Word(word)) => if is_word(word, "active"@) {
            if progress.unit_enabled {
                saying(
                    "The systemd unit "@ + plan.unit@
                        + " is already enabled and active; it is adopted rather than reinstalled.\n"@,
                    at(progress, InstallStep::RegisterTask),
                )
            } else {
                quietly(at(progress, InstallStep::EnableUnit))
            }
        } else if progress.unit_enabled {
            quietly(at(progress, InstallStep::StartAdopted))
        } else {
            quietly(at(progress, InstallStep::InstallService))
        },
        (InstallStep::EnableUnit, InstallEvent::Done) => saying(
            "The active systemd unit "@ + plan.unit@ + " was adopted and enabled at boot.\n"@,
            at(progress, InstallStep::RegisterTask),
        ),
        (InstallStep::StartAdopted, InstallEvent::Done) => saying(
            "The systemd unit "@ + plan.unit@
                + " was already enabled but not active; it was adopted and started.\n"@,
            at(progress, InstallStep::RegisterTask),
        ),
        (InstallStep::InstallService, InstallEvent::Done) => quietly(
            at(progress, InstallStep::StartInstalled),
        ),
        (InstallStep::StartInstalled, InstallEvent::Done) => saying(
            "Linux service installed and started at boot.\n"@,
            at(
                Progress { service_installed: true, ..progress },
                InstallStep::RegisterTask,
            ),
        ),
        _ => quietly(progress),
    }
}

/// What follows a step about the task or the record.
pub open spec fn task_after(progress: Progress, event: InstallEvent) -> MoveView {
    match (progress.step, event) {
        (InstallStep::RegisterTask, InstallEvent::Done) => quietly(
            at(progress, InstallStep::StartTask),
        ),
        (InstallStep::StartTask, InstallEvent::Done) => saying(
            "Lifecycle task "@ + progress.task_name@ + " registered and started.\n"@,
            at(progress, InstallStep::WriteRecord),
        ),
        (InstallStep::WriteRecord, InstallEvent::Done) => quietly(
            at(progress, InstallStep::ReadBack),
        ),
        _ => quietly(progress),
    }
}

// ---------------------------------------------------------------------------
// The whole transaction
// ---------------------------------------------------------------------------

/// How a failure in a step is reported: with its stage, except for the last
/// look, which changes nothing.
pub open spec fn failure_at(step: InstallStep, error: ErrorView) -> ErrorView {
    if step == InstallStep::ReadBack {
        error
    } else {
        staged(stage_of(step), error)
    }
}

/// Reports a failure in a step.
fn fail_at(step: InstallStep, error: CliError) -> (failed: CliError)
    ensures
        failed@ == failure_at(step, error@),
{
    if step == InstallStep::ReadBack {
        error
    } else {
        in_stage(stage_of_step(step), error)
    }
}

/// What follows a step that came to this. Whatever refuses is reported in the
/// stage it happened in; an event that does not answer the step leaves the
/// install where it is.
pub open spec fn install_after(
    plan: Provisioner,
    progress: Progress,
    event: InstallEvent,
) -> MoveView {
    match event {
        InstallEvent::Refused(source) => stopping(
            failure_at(progress.step, wsl_error::reported(source)),
        ),
        InstallEvent::Failed(error) => stopping(failure_at(progress.step, error@)),
        _ => match progress.step {
            InstallStep::Preflight | InstallStep::NameTask | InstallStep::QueryTask
            | InstallStep::RefuseForeignTask => preflight_after(plan, progress, event),
            InstallStep::ChooseTarget | InstallStep::ReadChecksums | InstallStep::SelectRelease
            | InstallStep::Download => artifact_after(progress, event),
            InstallStep::ReadBefore | InstallStep::AskActiveBefore | InstallStep::InstallBinary
            | InstallStep::ReadServiceCopy => binary_after(plan, progress, event),
            InstallStep::HandoverStatus | InstallStep::HandoverActive | InstallStep::HandoverMain
            | InstallStep::HandoverWait => handover_after(plan, progress, event),
            InstallStep::ReadCredential | InstallStep::IssueCredential | InstallStep::SetCapacity =>
            credential_after(plan, progress, event),
            InstallStep::AskEnabled | InstallStep::AskActive | InstallStep::EnableUnit
            | InstallStep::StartAdopted | InstallStep::InstallService
            | InstallStep::StartInstalled => service_after(plan, progress, event),
            InstallStep::RegisterTask | InstallStep::StartTask | InstallStep::WriteRecord
            | InstallStep::ReadBack => task_after(progress, event),
        },
    }
}

impl Provisioner {
    /// Writes what an install says once the preflight is through.
    fn header(&self, readiness: &Option<Readiness>) -> (said: String)
        ensures
            said@ == header_text(*self, *readiness),
    {
        match readiness {
            Some(ready) => {
                let mut said = "runner-manager wsl install\n  distribution              ".to_owned();
                said.append(ready.name.as_str());
                said.append("\n  preflight                 WSL");
                push_decimal(&mut said, ready.wsl_version as u64);
                said.append(", ");
                said.append(to_ascii_lowercase(ready.architecture.as_str()).as_str());
                said.append(" (");
                said.append(ready.machine.as_str());
                said.append("), systemd ");
                said.append(ready.systemd.as_str());
                said.append("\n  version to install        ");
                said.append(self.version.as_str());
                said.append("\n  release assets            ");
                said.append(self.assets.as_str());
                said.append("\n");
                said
            },
            None => String::new(),
        }
    }

    /// Takes a step of the preflight.
    fn take_preflight(&self, progress: Progress, event: InstallEvent) -> (next: InstallMove)
        ensures
            next@ == preflight_after(*self, progress, event),
    {
        let mut now = progress;
        match (now.step, event) {
            (InstallStep::Preflight, InstallEvent::Ready(readiness)) => {
                now.readiness = Some(readiness);
                now.step = InstallStep::NameTask;
                go(now)
            },
            (InstallStep::NameTask, InstallEvent::TaskNamed(name)) => {
                now.task_name = name;
                now.step = InstallStep::QueryTask;
                go(now)
            },
            (InstallStep::QueryTask, InstallEvent::TaskFound(task)) => {
                if let Some(found) = task {
                    if !found.product_owned {
                        now.foreign_command = Some(found.command);
                        now.step = InstallStep::RefuseForeignTask;
                        return go(now);
                    }
                }
                let said = self.header(&now.readiness);
                now.step = InstallStep::ChooseTarget;
                say(said, now)
            },
            (InstallStep::RefuseForeignTask, InstallEvent::Spelled(message)) => {
                let source = WslError { kind: WslErrorKind::ForeignTask, message };
                stop(in_stage(Stage::Preflight, wsl_failure(&source)))
            },
            _ => go(now),
        }
    }

    /// Takes a step about the release.
    fn take_artifact(&self, progress: Progress, event: InstallEvent) -> (next: InstallMove)
        ensures
            next@ == artifact_after(progress, event),
    {
        let mut now = progress;
        match (now.step, event) {
            (InstallStep::ChooseTarget, InstallEvent::Done) => {
                now.step = InstallStep::ReadChecksums;
                go(now)
            },
            (InstallStep::ReadChecksums, InstallEvent::Done) => {
                now.step = InstallStep::SelectRelease;
                go(now)
            },
            (InstallStep::SelectRelease, InstallEvent::Selected(asset)) => {
                now.asset = asset;
                now.step = InstallStep::Download;
                go(now)
            },
            (InstallStep::Download, InstallEvent::Done) => {
                now.step = InstallStep::ReadBefore;
                go(now)
            },
            (InstallStep::Download, InstallEvent::NoWorkDirectory(reason)) => {
                let mut message =
                    "cannot create a temporary directory to download into: ".to_owned();
                message.append(reason.as_str());
                stop(CliError::new(Failure::LocalState, message))
            },
            _ => go(now),
        }
    }

    /// Decides about the binary, once everything about the old one is known.
    fn decide_binary(&self, progress: Progress, word: Option<String>) -> (next: InstallMove)
        ensures
            next@ == before_binary(*self, progress, word),
    {
        let active = word_is(&word, "active");
        let replaced = !word_is(&progress.version_before, self.version.as_str());
        let legacy = match &progress.service_before {
            Some(version) => !same_text(version.as_str(), self.version.as_str())
                && !supports_cooperative_service_handover(&progress.service_before),
            None => false,
        };
        if active && legacy {
            return stop(
                legacy_failure(
                    self,
                    &progress.service_before,
                    "It was not stopped, and neither the Linux binary nor its service copy was replaced.",
                ),
            );
        }
        let name = progress.distribution();
        let mut now = progress;
        now.service_was_active = active;
        now.binary_replaced = replaced;
        if replaced {
            let mut said = "Installing ".to_owned();
            said.append(now.asset.as_str());
            said.append(" into ");
            said.append(name.as_str());
            said.append("\n");
            now.step = InstallStep::InstallBinary;
            say(said, now)
        } else {
            let mut said = name;
            said.append(" already runs runner-manager ");
            said.append(self.version.as_str());
            said.append("; the binary is left alone.\n");
            now.step =
            if active {
                InstallStep::ReadServiceCopy
            } else {
                InstallStep::ReadCredential
            };
            say(said, now)
        }
    }

    /// Decides about an active service.
    fn decide_handover(&self, progress: Progress, answer: LinuxAnswer) -> (next: InstallMove)
        ensures
            next@ == after_service_copy(*self, progress, answer),
    {
        let mut now = progress;
        match answer {
            LinuxAnswer::Reported(status) => {
                if word_is(&status.service_binary_version, self.version.as_str()) {
                    now.step = InstallStep::ReadCredential;
                    return go(now);
                }
                if !supports_cooperative_service_handover(&status.service_binary_version) {
                    return stop(
                        legacy_failure(
                            self,
                            &status.service_binary_version,
                            "It was not stopped and its private copy was not replaced; the Linux source binary is safe to leave in place.",
                        ),
                    );
                }
                now.step = InstallStep::HandoverStatus;
                say(
                    "The active service copy is taking its cooperative upgrade handover: it accepts no new jobs and waits for its local journal to drain before systemd restarts it.\n".to_owned(),
                    now,
                )
            },
            LinuxAnswer::Unusable(why) => {
                let mut said =
                    ": the updated Linux binary would not report the active service copy, so this cannot prove that it supports a safe handover: ".to_owned();
                said.append(why.as_str());
                stop(own_failure(Failure::WslProvisioning, Stage::Service, said.as_str()))
            },
            LinuxAnswer::Unreadable(why) => {
                let mut said =
                    ": cannot read the active service copy after replacing the Linux source binary: ".to_owned();
                said.append(why.as_str());
                stop(own_failure(Failure::WslProvisioning, Stage::Service, said.as_str()))
            },
        }
    }

    /// Takes a step about the binary.
    fn take_binary(&self, progress: Progress, event: InstallEvent) -> (next: InstallMove)
        ensures
            next@ == binary_after(*self, progress, event),
    {
        let mut now = progress;
        match (now.step, event) {
            (InstallStep::ReadBefore, InstallEvent::Answered(answer)) => {
                match answer {
                    LinuxAnswer::Reported(status) => {
                        now.version_before = Some(status.version);
                        now.service_before = status.service_binary_version;
                    },
                    _ => {
                        now.version_before = None;
                        now.service_before = None;
                    },
                }
                now.step = InstallStep::AskActiveBefore;
                go(now)
            },
            (InstallStep::AskActiveBefore, InstallEvent::Word(word)) => self.decide_binary(
                now,
                word,
            ),
            (InstallStep::InstallBinary, InstallEvent::Done) => {
                now.step =
                if now.service_was_active {
                    InstallStep::ReadServiceCopy
                } else {
                    InstallStep::ReadCredential
                };
                go(now)
            },
            (InstallStep::ReadServiceCopy, InstallEvent::Answered(answer)) => self.decide_handover(
                now,
                answer,
            ),
            _ => go(now),
        }
    }

    /// Takes a step of a handover.
    fn wait_for_cooperative_service_handover(
        &self,
        progress: Progress,
        event: InstallEvent,
    ) -> (next: InstallMove)
        ensures
            next@ == handover_after(*self, progress, event),
    {
        let mut now = progress;
        match (now.step, event) {
            (InstallStep::HandoverStatus, InstallEvent::Answered(answer)) => {
                let named = match answer {
                    LinuxAnswer::Unreadable(why) => {
                        let mut message = stage_prefix(Stage::Service);
                        message.append(": cannot observe the cooperative service handover: ");
                        message.append(why.as_str());
                        return stop(CliError::new(Failure::WslProvisioning, message));
                    },
                    LinuxAnswer::Reported(status) => word_is(
                        &status.service_binary_version,
                        self.version.as_str(),
                    ),
                    LinuxAnswer::Unusable(_) => false,
                };
                now.handed_over = named;
                now.step = InstallStep::HandoverActive;
                go(now)
            },
            (InstallStep::HandoverActive, InstallEvent::Word(word)) => {
                if word_is(&word, "failed") {
                    let mut said = ": the cooperative handover stopped ".to_owned();
                    said.append(self.unit.as_str());
                    said.append(
                        " but systemd reported it failed before the replacement could resume. No forced stop was used.",
                    );
                    return stop(
                        own_failure(Failure::WslProvisioning, Stage::Service, said.as_str()),
                    );
                }
                now.step =
                if now.handed_over && word_is(&word, "active") {
                    InstallStep::HandoverMain
                } else {
                    InstallStep::HandoverWait
                };
                go(now)
            },
            (InstallStep::HandoverMain, InstallEvent::MainVersion(version)) => {
                if word_is(&version, self.version.as_str()) {
                    now.step = InstallStep::ReadCredential;
                    say(
                        "The service drained, replaced its private copy, and systemd restarted it.\n".to_owned(),
                        now,
                    )
                } else {
                    now.step = InstallStep::HandoverWait;
                    go(now)
                }
            },
            (InstallStep::HandoverWait, InstallEvent::Done) => {
                now.step = InstallStep::HandoverStatus;
                go(now)
            },
            _ => go(now),
        }
    }

    /// The step that follows a settled credential.
    fn after_sign_in(&self) -> (step: InstallStep)
        ensures
            step == if self.capacity is Some {
                InstallStep::SetCapacity
            } else {
                InstallStep::AskEnabled
            },
    {
        if self.capacity.is_some() {
            InstallStep::SetCapacity
        } else {
            InstallStep::AskEnabled
        }
    }

    /// Decides about the credential: adopt one that is there, issue one that is
    /// certainly not, and otherwise refuse.
    fn settle_the_credential(&self, progress: Progress, answer: LinuxAnswer) -> (next: InstallMove)
        ensures
            next@ == after_credential_read(*self, progress, answer),
    {
        let mut now = progress;
        let name = now.distribution();
        let status = match answer {
            LinuxAnswer::Unreadable(problem) => {
                let mut message = stage_prefix(Stage::Credential);
                message.append(": ");
                message.append(problem.as_str());
                return stop(CliError::new(Failure::WslProvisioning, message));
            },
            LinuxAnswer::Unusable(why) => {
                let mut said = ": the runner-manager at ".to_owned();
                said.append(self.linux_binary.as_str());
                said.append(" in ");
                said.append(name.as_str());
                said.append(
                    " would not answer `status --json`, so this cannot tell whether the distribution already holds a credential and will not issue one blind: ",
                );
                said.append(why.as_str());
                return stop(
                    own_failure(Failure::WslProvisioning, Stage::Credential, said.as_str()),
                );
            },
            LinuxAnswer::Reported(status) => status,
        };
        if status.credential_present {
            let mut said = name;
            said.append(" already holds its own credential; it is left untouched.\n");
            now.step = self.after_sign_in();
            return say(said, now);
        }
        if let Some(why) = status.credential_unreadable {
            let mut said = ": ".to_owned();
            said.append(name.as_str());
            said.append(
                "'s credential store could not be read, so this cannot tell whether it already holds a credential and will not issue one over a value it cannot see: ",
            );
            said.append(why.as_str());
            return stop(own_failure(Failure::SecretStore, Stage::Credential, said.as_str()));
        }
        let mut said = name;
        said.append(
            " holds no credential of its own, so this signs in for it now. The credential is issued to the distribution and is never stored here.\n",
        );
        now.step = InstallStep::IssueCredential;
        say(said, now)
    }

    /// Takes a step about the credential or the capacity.
    fn take_credential(&self, progress: Progress, event: InstallEvent) -> (next: InstallMove)
        ensures
            next@ == credential_after(*self, progress, event),
    {
        let mut now = progress;
        match (now.step, event) {
            (InstallStep::ReadCredential, InstallEvent::Answered(answer)) =>
            self.settle_the_credential(now, answer),
            (InstallStep::IssueCredential, InstallEvent::Issued { shown, delivered }) => {
                let mut said = "Credential delivered. ".to_owned();
                said.append(shown.as_str());
                said.append("\n");
                now.credential_issued = delivered;
                now.step = self.after_sign_in();
                say(said, now)
            },
            (InstallStep::SetCapacity, InstallEvent::Done) => {
                let mut said = String::new();
                if let Some(capacity) = self.capacity {
                    said = "Capacity set to ".to_owned();
                    push_decimal(&mut said, capacity as u64);
                    said.append(".\n");
                }
                now.step = InstallStep::AskEnabled;
                say(said, now)
            },
            _ => go(now),
        }
    }

    /// Takes a step about the service.
    fn settle_the_service(&self, progress: Progress, event: InstallEvent) -> (next: InstallMove)
        ensures
            next@ == service_after(*self, progress, event),
    {
        let mut now = progress;
        match (now.step, event) {
            (InstallStep::AskEnabled, InstallEvent::Word(word)) => {
                now.unit_enabled = word_is(&word, "enabled");
                now.step = InstallStep::AskActive;
                go(now)
            },
            (InstallStep::AskActive, InstallEvent::Word(word)) => {
                if word_is(&word, "active") {
                    if now.unit_enabled {
                        let mut said = "The systemd unit ".to_owned();
                        said.append(self.unit.as_str());
                        said.append(
                            " is already enabled and active; it is adopted rather than reinstalled.\n",
                        );
                        now.step = InstallStep::RegisterTask;
                        return say(said, now);
                    }
                    now.step = InstallStep::EnableUnit;
                    return go(now);
                }
                now.step =
                if now.unit_enabled {
                    InstallStep::StartAdopted
                } else {
                    InstallStep::InstallService
                };
                go(now)
            },
            (InstallStep::EnableUnit, InstallEvent::Done) => {
                let mut said = "The active systemd unit ".to_owned();
                said.append(self.unit.as_str());
                said.append(" was adopted and enabled at boot.\n");
                now.step = InstallStep::RegisterTask;
                say(said, now)
            },
            (InstallStep::StartAdopted, InstallEvent::Done) => {
                let mut said = "The systemd unit ".to_owned();
                said.append(self.unit.as_str());
                said.append(" was already enabled but not active; it was adopted and started.\n");
                now.step = InstallStep::RegisterTask;
                say(said, now)
            },
            (InstallStep::InstallService, InstallEvent::Done) => {
                now.step = InstallStep::StartInstalled;
                go(now)
            },
            (InstallStep::StartInstalled, InstallEvent::Done) => {
                now.service_installed = true;
                now.step = InstallStep::RegisterTask;
                say("Linux service installed and started at boot.\n".to_owned(), now)
            },
            _ => go(now),
        }
    }

    /// Takes a step about the task or the record.
    fn take_task(&self, progress: Progress, event: InstallEvent) -> (next: InstallMove)
        ensures
            next@ == task_after(progress, event),
    {
        let mut now = progress;
        match (now.step, event) {
            (InstallStep::RegisterTask, InstallEvent::Done) => {
                now.step = InstallStep::StartTask;
                go(now)
            },
            (InstallStep::StartTask, InstallEvent::Done) => {
                let mut said = "Lifecycle task ".to_owned();
                said.append(now.task_name.as_str());
                said.append(" registered and started.\n");
                now.step = InstallStep::WriteRecord;
                say(said, now)
            },
            (InstallStep::WriteRecord, InstallEvent::Done) => {
                now.step = InstallStep::ReadBack;
                go(now)
            },
            _ => go(now),
        }
    }

    /// Takes one step of an install, which begins with [`Progress::begin`] and
    /// is over at [`InstallStep::ReadBack`].
    pub fn install(&self, progress: Progress, event: InstallEvent) -> (next: InstallMove)
        ensures
            next@ == install_after(*self, progress, event),
    {
        match event {
            InstallEvent::Refused(source) => stop(fail_at(progress.step, wsl_failure(&source))),
            InstallEvent::Failed(error) => stop(fail_at(progress.step, error)),
            other => match progress.step {
                InstallStep::Preflight | InstallStep::NameTask | InstallStep::QueryTask
                | InstallStep::RefuseForeignTask => self.take_preflight(progress, other),
                InstallStep::ChooseTarget | InstallStep::ReadChecksums
                | InstallStep::SelectRelease | InstallStep::Download => self.take_artifact(
                    progress,
                    other,
                ),
                InstallStep::ReadBefore | InstallStep::AskActiveBefore
                | InstallStep::InstallBinary | InstallStep::ReadServiceCopy => self.take_binary(
                    progress,
                    other,
                ),
                InstallStep::HandoverStatus | InstallStep::HandoverActive
                | InstallStep::HandoverMain | InstallStep::HandoverWait =>
                self.wait_for_cooperative_service_handover(progress, other),
                InstallStep::ReadCredential | InstallStep::IssueCredential
                | InstallStep::SetCapacity => self.take_credential(progress, other),
                InstallStep::AskEnabled | InstallStep::AskActive | InstallStep::EnableUnit
                | InstallStep::StartAdopted | InstallStep::InstallService
                | InstallStep::StartInstalled => self.settle_the_service(progress, other),
                InstallStep::RegisterTask | InstallStep::StartTask | InstallStep::WriteRecord
                | InstallStep::ReadBack => self.take_task(progress, other),
            },
        }
    }

    /// What to register as the lifecycle task.
    pub fn registration(&self, progress: &Progress) -> (task: TaskRegistration)
        ensures
            registers(task, *self, *progress),
    {
        TaskRegistration {
            distribution: progress.distribution(),
            task_name: progress.task_name.clone(),
            linux_binary: self.linux_binary.clone(),
        }
    }

    /// What to write down about the distribution. `now` is when this was looked
    /// at.
    pub fn record(&self, progress: &Progress, now: Moment) -> (record: ProviderRecord)
        ensures
            records(record, *self, *progress, now),
    {
        ProviderRecord {
            distribution: progress.distribution(),
            task_name: progress.task_name.clone(),
            installed_version: self.version.clone(),
            last_verified: now,
        }
    }

    /// What an install that came to its end did.
    pub fn outcome(&self, progress: &Progress) -> (outcome: InstallOutcome)
        ensures
            outcome == (InstallOutcome {
                version: self.version,
                binary_replaced: progress.binary_replaced,
                credential_issued: progress.credential_issued,
                capacity_set: self.capacity,
                service_installed: progress.service_installed,
            }),
    {
        InstallOutcome {
            version: self.version.clone(),
            binary_replaced: progress.binary_replaced,
            credential_issued: progress.credential_issued,
            capacity_set: self.capacity,
            service_installed: progress.service_installed,
        }
    }
}

// ---------------------------------------------------------------------------
// What runs inside the distribution
// ---------------------------------------------------------------------------

/// The command that a step runs inside the distribution, program first. The
/// running process of a handover is asked in two commands, of which this is the
/// first. A step with none works on Windows, or streams a file.
pub open spec fn command_at(plan: Provisioner, step: InstallStep) -> Option<Seq<Seq<char>>> {
    match step {
        InstallStep::ReadBefore | InstallStep::ReadServiceCopy | InstallStep::HandoverStatus
        | InstallStep::ReadCredential => Some(
            seq![plan.linux_binary@, "status"@, "--json"@],
        ),
        InstallStep::AskActiveBefore | InstallStep::HandoverActive | InstallStep::AskActive => Some(
            seq!["systemctl"@, "is-active"@, plan.unit@],
        ),
        InstallStep::AskEnabled => Some(seq!["systemctl"@, "is-enabled"@, plan.unit@]),
        InstallStep::HandoverMain => Some(
            seq!["systemctl"@, "show"@, "--property=MainPID"@, "--value"@, plan.unit@],
        ),
        InstallStep::IssueCredential => Some(
            seq![plan.linux_binary@, "auth"@, "receive"@, "--start-at"@, "boot"@],
        ),
        InstallStep::SetCapacity => match plan.capacity {
            Some(capacity) => Some(
                seq![
                    plan.linux_binary@,
                    "host"@,
                    "set-capacity"@,
                    text::decimal(capacity as nat),
                ],
            ),
            None => None,
        },
        InstallStep::EnableUnit => Some(seq!["systemctl"@, "enable"@, plan.unit@]),
        InstallStep::StartAdopted | InstallStep::StartInstalled => Some(
            seq!["systemctl"@, "start"@, plan.unit@],
        ),
        InstallStep::InstallService => Some(
            seq![plan.linux_binary@, "service"@, "install"@, "--start-at"@, "boot"@],
        ),
        _ => None,
    }
}

/// A command of two words after the program.
fn command_of_three(program: &str, first: &str, second: &str) -> (command: Vec<String>)
    ensures
        text::texts(command@) == seq![program@, first@, second@],
{
    let command = vec![program.to_owned(), first.to_owned(), second.to_owned()];
    assert(text::texts(command@) =~= seq![program@, first@, second@]);
    command
}

/// A command of four words after the program.
fn command_of_five(program: &str, first: &str, second: &str, third: &str, fourth: &str) -> (command:
    Vec<String>)
    ensures
        text::texts(command@) == seq![program@, first@, second@, third@, fourth@],
{
    let command = vec![
        program.to_owned(),
        first.to_owned(),
        second.to_owned(),
        third.to_owned(),
        fourth.to_owned(),
    ];
    assert(text::texts(command@) =~= seq![program@, first@, second@, third@, fourth@]);
    command
}

impl Provisioner {
    /// The command that a step runs inside the distribution, program first.
    pub fn linux_command(&self, step: InstallStep) -> (command: Option<Vec<String>>)
        ensures
            match command {
                Some(words) => command_at(*self, step) == Some(text::texts(words@)),
                None => command_at(*self, step) is None,
            },
    {
        let binary = self.linux_binary.as_str();
        let unit = self.unit.as_str();
        match step {
            InstallStep::ReadBefore | InstallStep::ReadServiceCopy | InstallStep::HandoverStatus
            | InstallStep::ReadCredential => Some(command_of_three(binary, "status", "--json")),
            InstallStep::AskActiveBefore | InstallStep::HandoverActive
            | InstallStep::AskActive => Some(command_of_three("systemctl", "is-active", unit)),
            InstallStep::AskEnabled => Some(command_of_three("systemctl", "is-enabled", unit)),
            InstallStep::HandoverMain => Some(
                command_of_five("systemctl", "show", "--property=MainPID", "--value", unit),
            ),
            InstallStep::IssueCredential => Some(
                command_of_five(binary, "auth", "receive", "--start-at", "boot"),
            ),
            InstallStep::SetCapacity => match self.capacity {
                Some(capacity) => {
                    let mut number = String::new();
                    push_decimal(&mut number, capacity as u64);
                    let ghost digits = number@;
                    assert(digits == text::decimal(capacity as nat));
                    let command = vec![
                        self.linux_binary.clone(),
                        "host".to_owned(),
                        "set-capacity".to_owned(),
                        number,
                    ];
                    assert(text::texts(command@) =~= seq![
                        self.linux_binary@,
                        "host"@,
                        "set-capacity"@,
                        digits,
                    ]);
                    Some(command)
                },
                None => None,
            },
            InstallStep::EnableUnit => Some(command_of_three("systemctl", "enable", unit)),
            InstallStep::StartAdopted | InstallStep::StartInstalled => Some(
                command_of_three("systemctl", "start", unit),
            ),
            InstallStep::InstallService => Some(
                command_of_five(binary, "service", "install", "--start-at", "boot"),
            ),
            _ => None,
        }
    }
}

/// No step of an install asks systemd to stop anything: a running service hands
/// itself over, or is left alone.
pub proof fn law_no_step_stops_a_service(plan: Provisioner, step: InstallStep)
    ensures
        command_at(plan, step) matches Some(words) ==> words[1] != "stop"@,
{
    reveal_strlit("stop");
    reveal_strlit("status");
    reveal_strlit("is-active");
    reveal_strlit("is-enabled");
    reveal_strlit("show");
    reveal_strlit("auth");
    reveal_strlit("host");
    reveal_strlit("enable");
    reveal_strlit("start");
    reveal_strlit("service");
    assert("stop"@.len() == 4 && "stop"@[0] == 's' && "stop"@[1] == 't');
    assert("status"@.len() == 6);
    assert("is-active"@.len() == 9);
    assert("is-enabled"@.len() == 10);
    assert("show"@[1] == 'h');
    assert("auth"@[0] == 'a');
    assert("host"@[0] == 'h');
    assert("enable"@.len() == 6);
    assert("start"@.len() == 5);
    assert("service"@.len() == 7);
}

// ---------------------------------------------------------------------------
// Whole runs
// ---------------------------------------------------------------------------

/// The steps that a run of events takes an install through, the one it stands at
/// when the events begin first.
pub open spec fn performed(
    plan: Provisioner,
    progress: Progress,
    events: Seq<InstallEvent>,
) -> Seq<InstallStep>
    decreases events.len(),
{
    if events.len() == 0 {
        seq![progress.step]
    } else {
        match install_after(plan, progress, events[0]).next {
            Ok(next) => seq![progress.step] + performed(plan, next, events.drop_first()),
            Err(_) => seq![progress.step],
        }
    }
}

/// Where a run of events leaves an install.
pub open spec fn left_at(
    plan: Provisioner,
    progress: Progress,
    events: Seq<InstallEvent>,
) -> Result<Progress, ErrorView>
    decreases events.len(),
{
    if events.len() == 0 {
        Ok(progress)
    } else {
        match install_after(plan, progress, events[0]).next {
            Ok(next) => left_at(plan, next, events.drop_first()),
            Err(error) => Err(error),
        }
    }
}

/// Whether a step changes anything, on Windows or in the distribution.
pub open spec fn changes(step: InstallStep) -> bool {
    match step {
        InstallStep::InstallBinary | InstallStep::IssueCredential | InstallStep::SetCapacity
        | InstallStep::EnableUnit | InstallStep::StartAdopted | InstallStep::InstallService
        | InstallStep::StartInstalled | InstallStep::RegisterTask | InstallStep::StartTask
        | InstallStep::WriteRecord => true,
        _ => false,
    }
}

/// Whether a step comes before the first that could change anything.
pub open spec fn asks_first(step: InstallStep) -> bool {
    match step {
        InstallStep::Preflight | InstallStep::NameTask | InstallStep::QueryTask
        | InstallStep::RefuseForeignTask | InstallStep::ChooseTarget | InstallStep::ReadChecksums
        | InstallStep::SelectRelease | InstallStep::Download | InstallStep::ReadBefore | InstallStep::AskActiveBefore => true,
        _ => false,
    }
}

/// Whether a move leads to no earlier stage, and back to asking only from
/// asking.
spec fn goes_on(step: InstallStep, moved: MoveView) -> bool {
    moved.next matches Ok(next) ==> {
        &&& stage_of(step).place() <= stage_of(next.step).place()
        &&& asks_first(next.step) ==> asks_first(step)
    }
}

/// Every move goes on.
proof fn lemma_a_step_goes_on(plan: Provisioner, progress: Progress, event: InstallEvent)
    ensures
        goes_on(progress.step, install_after(plan, progress, event)),
{
    match progress.step {
        InstallStep::Preflight | InstallStep::NameTask | InstallStep::QueryTask
        | InstallStep::RefuseForeignTask => {
            assert(goes_on(progress.step, preflight_after(plan, progress, event)));
        },
        InstallStep::ChooseTarget | InstallStep::ReadChecksums | InstallStep::SelectRelease
        | InstallStep::Download => {
            assert(goes_on(progress.step, artifact_after(progress, event)));
        },
        InstallStep::ReadBefore | InstallStep::AskActiveBefore | InstallStep::InstallBinary
        | InstallStep::ReadServiceCopy => {
            assert(goes_on(progress.step, binary_after(plan, progress, event)));
        },
        InstallStep::HandoverStatus | InstallStep::HandoverActive | InstallStep::HandoverMain
        | InstallStep::HandoverWait => {
            assert(goes_on(progress.step, handover_after(plan, progress, event)));
        },
        InstallStep::ReadCredential | InstallStep::IssueCredential | InstallStep::SetCapacity => {
            assert(goes_on(progress.step, credential_after(plan, progress, event)));
        },
        InstallStep::AskEnabled | InstallStep::AskActive | InstallStep::EnableUnit
        | InstallStep::StartAdopted | InstallStep::InstallService | InstallStep::StartInstalled => {
            assert(goes_on(progress.step, service_after(plan, progress, event)));
        },
        InstallStep::RegisterTask | InstallStep::StartTask | InstallStep::WriteRecord
        | InstallStep::ReadBack => {
            assert(goes_on(progress.step, task_after(progress, event)));
        },
    }
}

/// A stage is never returned to.
#[verifier::spinoff_prover]
#[verifier::rlimit(60)]
pub proof fn law_stages_run_in_order(
    plan: Provisioner,
    progress: Progress,
    events: Seq<InstallEvent>,
    i: int,
    j: int,
)
    requires
        0 <= i <= j < performed(plan, progress, events).len(),
    ensures
        stage_of(performed(plan, progress, events)[i]).place() <= stage_of(
            performed(plan, progress, events)[j],
        ).place(),
    decreases events.len(),
{
    let steps = performed(plan, progress, events);
    assert(steps[0] == progress.step);
    if events.len() > 0 {
        lemma_a_step_goes_on(plan, progress, events[0]);
        match install_after(plan, progress, events[0]).next {
            Ok(next) => {
                let rest = performed(plan, next, events.drop_first());
                assert(steps == seq![progress.step] + rest);
                if j > 0 {
                    assert(rest[0] == next.step);
                    assert(steps[j] == rest[j - 1]);
                    law_stages_run_in_order(plan, next, events.drop_first(), 0, j - 1);
                    assert(stage_of(progress.step).place() <= stage_of(next.step).place());
                    if i > 0 {
                        assert(steps[i] == rest[i - 1]);
                        law_stages_run_in_order(plan, next, events.drop_first(), i - 1, j - 1);
                    }
                }
            },
            Err(_) => {},
        }
    }
}

/// While an install is only asking, it has changed nothing. So a refused
/// preflight, an archive that cannot be had and a service that cannot hand
/// itself over all leave the host as it was.
#[verifier::spinoff_prover]
#[verifier::rlimit(60)]
pub proof fn law_nothing_changes_while_asking(
    plan: Provisioner,
    progress: Progress,
    events: Seq<InstallEvent>,
    i: int,
)
    requires
        asks_first(performed(plan, progress, events).last()),
        0 <= i < performed(plan, progress, events).len(),
    ensures
        asks_first(performed(plan, progress, events)[i]),
        !changes(performed(plan, progress, events)[i]),
    decreases events.len(),
{
    let steps = performed(plan, progress, events);
    if events.len() > 0 {
        lemma_a_step_goes_on(plan, progress, events[0]);
        match install_after(plan, progress, events[0]).next {
            Ok(next) => {
                let rest = performed(plan, next, events.drop_first());
                assert(steps == seq![progress.step] + rest);
                assert(rest.len() > 0 && rest[0] == next.step);
                assert(steps.last() == rest.last());
                law_nothing_changes_while_asking(plan, next, events.drop_first(), 0);
                if i > 0 {
                    assert(steps[i] == rest[i - 1]);
                    law_nothing_changes_while_asking(plan, next, events.drop_first(), i - 1);
                }
            },
            Err(_) => {},
        }
    }
}

/// A failed preflight says that nothing has been changed.
pub proof fn law_a_failed_preflight_says_so(
    plan: Provisioner,
    progress: Progress,
    event: InstallEvent,
)
    requires
        stage_of(progress.step) == Stage::Preflight,
    ensures
        install_after(plan, progress, event).next matches Err(error) ==> (prefix_text(
            Stage::Preflight,
        ) + ": "@).is_prefix_of(error.message),
{
    if let Err(error) = install_after(plan, progress, event).next {
        let opening = prefix_text(Stage::Preflight) + ": "@;
        assert(error.message.take(opening.len() as int) =~= opening);
    }
}

/// An active service that is known not to hand itself over is refused while the
/// install is still only asking.
pub proof fn law_a_legacy_service_is_refused_untouched(
    plan: Provisioner,
    progress: Progress,
    word: Option<String>,
)
    requires
        progress.step == InstallStep::AskActiveBefore,
        is_word(word, "active"@),
        is_legacy(plan, progress.service_before),
    ensures
        install_after(plan, progress, InstallEvent::Word(word)).next is Err,
        asks_first(progress.step),
{
}

/// A credential is issued only when the distribution said that it holds none and
/// could read its own store, so a healthy one is never written over.
pub proof fn law_a_credential_is_issued_only_where_there_is_none(
    plan: Provisioner,
    progress: Progress,
    event: InstallEvent,
)
    requires
        progress.step != InstallStep::IssueCredential,
        install_after(plan, progress, event).next matches Ok(next) && next.step
            == InstallStep::IssueCredential,
    ensures
        progress.step == InstallStep::ReadCredential,
        event matches InstallEvent::Answered(LinuxAnswer::Reported(status))
            && !status.credential_present && status.credential_unreadable is None,
{
}

/// What is said of an issued credential is what the distribution took.
pub proof fn law_an_issued_credential_was_delivered(
    plan: Provisioner,
    progress: Progress,
    event: InstallEvent,
)
    requires
        !progress.credential_issued,
        install_after(plan, progress, event).next matches Ok(next) && next.credential_issued,
    ensures
        progress.step == InstallStep::IssueCredential,
        event matches InstallEvent::Issued { delivered, .. } && delivered,
{
}

/// A capacity that was not supplied is never set.
pub proof fn law_a_capacity_is_never_inferred(
    plan: Provisioner,
    progress: Progress,
    events: Seq<InstallEvent>,
)
    requires
        plan.capacity is None,
        progress.step != InstallStep::SetCapacity,
    ensures
        !performed(plan, progress, events).contains(InstallStep::SetCapacity),
    decreases events.len(),
{
    let steps = performed(plan, progress, events);
    if events.len() > 0 {
        match install_after(plan, progress, events[0]).next {
            Ok(next) => {
                let rest = performed(plan, next, events.drop_first());
                law_a_capacity_is_never_inferred(plan, next, events.drop_first());
                assert(steps == seq![progress.step] + rest);
                assert forall|k: int| 0 <= k < steps.len() implies steps[k]
                    != InstallStep::SetCapacity by {
                    if k > 0 {
                        assert(steps[k] == rest[k - 1]);
                        assert(rest.contains(rest[k - 1]));
                    }
                }
            },
            Err(_) => {},
        }
    }
}

/// A service is installed only where the unit is neither active nor enabled: a
/// running daemon is adopted, never replaced.
pub proof fn law_a_running_service_is_adopted(
    plan: Provisioner,
    progress: Progress,
    event: InstallEvent,
)
    requires
        progress.step != InstallStep::InstallService,
        install_after(plan, progress, event).next matches Ok(next) && next.step
            == InstallStep::InstallService,
    ensures
        progress.step == InstallStep::AskActive,
        !progress.unit_enabled,
        event matches InstallEvent::Word(word) && !is_word(word, "active"@),
{
}

/// A handover is over only when the status named the new version, the unit was
/// active, and the unit's own main process is the new version.
pub proof fn law_a_handover_ends_with_the_new_process(
    plan: Provisioner,
    progress: Progress,
    event: InstallEvent,
)
    ensures
        install_after(plan, progress, event).next matches Ok(next) ==> {
            &&& (progress.step == InstallStep::HandoverStatus || progress.step
                == InstallStep::HandoverActive || progress.step == InstallStep::HandoverMain
                || progress.step == InstallStep::HandoverWait) && next.step
                == InstallStep::ReadCredential ==> progress.step == InstallStep::HandoverMain
                && (event matches InstallEvent::MainVersion(version) && is_word(
                version,
                plan.version@,
            ))
            &&& progress.step != InstallStep::HandoverMain && next.step
                == InstallStep::HandoverMain ==> progress.handed_over && (
            event matches InstallEvent::Word(word) && is_word(word, "active"@))
            &&& !progress.handed_over && next.handed_over ==> (event matches InstallEvent::Answered(
                answer,
            ) && is_word(versions_in(answer).1, plan.version@))
        },
{
}

/// Whether a move reaches the last three steps only in their order.
spec fn ends_in_order(step: InstallStep, event: InstallEvent, moved: MoveView) -> bool {
    moved.next matches Ok(next) ==> {
        &&& step != InstallStep::WriteRecord && next.step == InstallStep::WriteRecord ==> step
            == InstallStep::StartTask && event is Done
        &&& step != InstallStep::StartTask && next.step == InstallStep::StartTask ==> step
            == InstallStep::RegisterTask && event is Done
        &&& step != InstallStep::ReadBack && next.step == InstallStep::ReadBack ==> step
            == InstallStep::WriteRecord && event is Done
    }
}

/// Whether a move keeps what was learned about the distribution and its task.
spec fn keeps_names(progress: Progress, moved: MoveView) -> bool {
    moved.next matches Ok(next) ==> next.readiness == progress.readiness && next.task_name
        == progress.task_name
}

/// Every move ends in order, and once the task is named the names are kept.
proof fn lemma_a_step_ends_in_order(plan: Provisioner, progress: Progress, event: InstallEvent)
    ensures
        ends_in_order(progress.step, event, install_after(plan, progress, event)),
        progress.step != InstallStep::Preflight && progress.step != InstallStep::NameTask
            ==> keeps_names(progress, install_after(plan, progress, event)),
{
    let step = progress.step;
    match step {
        InstallStep::Preflight | InstallStep::NameTask | InstallStep::QueryTask
        | InstallStep::RefuseForeignTask => {
            let moved = preflight_after(plan, progress, event);
            assert(ends_in_order(step, event, moved));
            assert(step != InstallStep::Preflight && step != InstallStep::NameTask ==> keeps_names(
                progress,
                moved,
            ));
        },
        InstallStep::ChooseTarget | InstallStep::ReadChecksums | InstallStep::SelectRelease
        | InstallStep::Download => {
            let moved = artifact_after(progress, event);
            assert(ends_in_order(step, event, moved) && keeps_names(progress, moved));
        },
        InstallStep::ReadBefore | InstallStep::AskActiveBefore | InstallStep::InstallBinary
        | InstallStep::ReadServiceCopy => {
            let moved = binary_after(plan, progress, event);
            assert(ends_in_order(step, event, moved) && keeps_names(progress, moved));
        },
        InstallStep::HandoverStatus | InstallStep::HandoverActive | InstallStep::HandoverMain
        | InstallStep::HandoverWait => {
            let moved = handover_after(plan, progress, event);
            assert(ends_in_order(step, event, moved) && keeps_names(progress, moved));
        },
        InstallStep::ReadCredential | InstallStep::IssueCredential | InstallStep::SetCapacity => {
            let moved = credential_after(plan, progress, event);
            assert(ends_in_order(step, event, moved) && keeps_names(progress, moved));
        },
        InstallStep::AskEnabled | InstallStep::AskActive | InstallStep::EnableUnit
        | InstallStep::StartAdopted | InstallStep::InstallService | InstallStep::StartInstalled => {
            let moved = service_after(plan, progress, event);
            assert(ends_in_order(step, event, moved) && keeps_names(progress, moved));
        },
        InstallStep::RegisterTask | InstallStep::StartTask | InstallStep::WriteRecord
        | InstallStep::ReadBack => {
            let moved = task_after(progress, event);
            assert(ends_in_order(step, event, moved) && keeps_names(progress, moved));
        },
    }
}

/// The record is written only once the task is registered and started.
pub proof fn law_the_record_follows_the_task(
    plan: Provisioner,
    progress: Progress,
    event: InstallEvent,
)
    ensures
        install_after(plan, progress, event).next matches Ok(next) ==> {
            &&& progress.step != InstallStep::WriteRecord && next.step == InstallStep::WriteRecord
                ==> progress.step == InstallStep::StartTask && event is Done
            &&& progress.step != InstallStep::StartTask && next.step == InstallStep::StartTask
                ==> progress.step == InstallStep::RegisterTask && event is Done
            &&& progress.step != InstallStep::ReadBack && next.step == InstallStep::ReadBack
                ==> progress.step == InstallStep::WriteRecord && event is Done
        },
{
    lemma_a_step_ends_in_order(plan, progress, event);
}

/// What is recorded is what was registered: from the registration on, whatever
/// happens, the record names the distribution and the task that were registered.
pub proof fn law_the_record_names_what_was_registered(
    plan: Provisioner,
    progress: Progress,
    events: Seq<InstallEvent>,
    task: TaskRegistration,
    record: ProviderRecord,
    now: Moment,
)
    requires
        progress.step == InstallStep::RegisterTask,
        registers(task, plan, progress),
        left_at(plan, progress, events) matches Ok(end) && records(record, plan, end, now),
    ensures
        record.distribution@ == task.distribution@,
        record.task_name@ == task.task_name@,
{
    lemma_names_are_kept(plan, progress, events);
}

/// Once the task is named, the names are kept through every run.
proof fn lemma_names_are_kept(plan: Provisioner, progress: Progress, events: Seq<InstallEvent>)
    requires
        progress.step != InstallStep::Preflight,
        progress.step != InstallStep::NameTask,
    ensures
        left_at(plan, progress, events) matches Ok(end) ==> end.readiness == progress.readiness
            && end.task_name == progress.task_name,
    decreases events.len(),
{
    if events.len() > 0 {
        lemma_a_step_ends_in_order(plan, progress, events[0]);
        lemma_a_step_leaves_the_naming(plan, progress, events[0]);
        match install_after(plan, progress, events[0]).next {
            Ok(next) => lemma_names_are_kept(plan, next, events.drop_first()),
            Err(_) => {},
        }
    }
}

/// The naming is never returned to.
proof fn lemma_a_step_leaves_the_naming(
    plan: Provisioner,
    progress: Progress,
    event: InstallEvent,
)
    requires
        progress.step != InstallStep::Preflight,
        progress.step != InstallStep::NameTask,
    ensures
        install_after(plan, progress, event).next matches Ok(next) ==> next.step
            != InstallStep::Preflight && next.step != InstallStep::NameTask,
{
    lemma_a_step_goes_on(plan, progress, event);
    if progress.step == InstallStep::QueryTask || progress.step == InstallStep::RefuseForeignTask {
        let moved = preflight_after(plan, progress, event);
        assert(moved.next matches Ok(next) ==> next.step != InstallStep::Preflight && next.step
            != InstallStep::NameTask);
    }
}

/// A task that belongs to somebody else is never got past: every event either
/// refuses the install or leaves it there.
pub proof fn law_a_foreign_task_is_never_passed(
    plan: Provisioner,
    progress: Progress,
    task: RegisteredTask,
    event: InstallEvent,
)
    requires
        progress.step == InstallStep::QueryTask,
        !task.product_owned,
    ensures
        ({
            let found = install_after(plan, progress, InstallEvent::TaskFound(Some(task))).next;
            &&& found matches Ok(refusing)
            &&& refusing.step == InstallStep::RefuseForeignTask
            &&& refusing.foreign_command == Some(task.command)
            &&& install_after(plan, refusing, event).next matches Ok(next) ==> next == refusing
        }),
{
}

/// What a distribution that is already set up answers to an install.
pub open spec fn healthy_answers(
    ready: Readiness,
    task_name: String,
    task: Option<RegisteredTask>,
    asset: String,
    status: LinuxStatus,
    active: String,
    enabled: String,
) -> Seq<InstallEvent> {
    seq![
        InstallEvent::Ready(ready),
        InstallEvent::TaskNamed(task_name),
        InstallEvent::TaskFound(task),
        InstallEvent::Done,
        InstallEvent::Done,
        InstallEvent::Selected(asset),
        InstallEvent::Done,
        InstallEvent::Answered(LinuxAnswer::Reported(status)),
        InstallEvent::Word(Some(active)),
        InstallEvent::Answered(LinuxAnswer::Reported(status)),
        InstallEvent::Answered(LinuxAnswer::Reported(status)),
        InstallEvent::Word(Some(enabled)),
        InstallEvent::Word(Some(active)),
        InstallEvent::Done,
        InstallEvent::Done,
        InstallEvent::Done,
    ]
}

/// The steps of an install over a distribution that is already set up.
pub open spec fn healthy_steps() -> Seq<InstallStep> {
    seq![
        InstallStep::Preflight,
        InstallStep::NameTask,
        InstallStep::QueryTask,
        InstallStep::ChooseTarget,
        InstallStep::ReadChecksums,
        InstallStep::SelectRelease,
        InstallStep::Download,
        InstallStep::ReadBefore,
        InstallStep::AskActiveBefore,
        InstallStep::ReadServiceCopy,
        InstallStep::ReadCredential,
        InstallStep::AskEnabled,
        InstallStep::AskActive,
        InstallStep::RegisterTask,
        InstallStep::StartTask,
        InstallStep::WriteRecord,
        InstallStep::ReadBack,
    ]
}

/// One event of a run.
proof fn lemma_one_event(
    plan: Provisioner,
    progress: Progress,
    events: Seq<InstallEvent>,
    k: int,
    next: Progress,
)
    requires
        0 <= k < events.len(),
        install_after(plan, progress, events[k]).next == Ok::<Progress, ErrorView>(next),
    ensures
        performed(plan, progress, events.skip(k)) == seq![progress.step] + performed(
            plan,
            next,
            events.skip(k + 1),
        ),
        left_at(plan, progress, events.skip(k)) == left_at(plan, next, events.skip(k + 1)),
{
    assert(events.skip(k)[0] == events[k]);
    assert(events.skip(k).drop_first() =~= events.skip(k + 1));
}

/// A rerun over a host that is already set up replaces no binary, issues no
/// credential and installs no service. All it does is register and start the
/// task, and write the record.
#[verifier::spinoff_prover]
#[verifier::rlimit(60)]
pub proof fn law_a_rerun_over_a_healthy_host_changes_only_the_task_and_the_record(
    plan: Provisioner,
    progress: Progress,
    ready: Readiness,
    task_name: String,
    task: Option<RegisteredTask>,
    asset: String,
    status: LinuxStatus,
    active: String,
    enabled: String,
)
    requires
        progress.step == InstallStep::Preflight,
        !progress.credential_issued,
        !progress.service_installed,
        plan.capacity is None,
        task matches Some(found) ==> found.product_owned,
        status.version@ == plan.version@,
        is_word(status.service_binary_version, plan.version@),
        status.credential_present,
        active@ == "active"@,
        enabled@ == "enabled"@,
    ensures
        ({
            let events = healthy_answers(ready, task_name, task, asset, status, active, enabled);
            &&& performed(plan, progress, events) == healthy_steps()
            &&& forall|k: int|
                #![trigger healthy_steps()[k]]
                0 <= k < healthy_steps().len() && changes(healthy_steps()[k]) ==> {
                    ||| healthy_steps()[k] == InstallStep::RegisterTask
                    ||| healthy_steps()[k] == InstallStep::StartTask
                    ||| healthy_steps()[k] == InstallStep::WriteRecord
                }
            &&& left_at(plan, progress, events) matches Ok(end) && end.step == InstallStep::ReadBack
                && !end.binary_replaced && !end.credential_issued && !end.service_installed
        }),
{
    let events = healthy_answers(ready, task_name, task, asset, status, active, enabled);
    let p1 = Progress { readiness: Some(ready), step: InstallStep::NameTask, ..progress };
    let p2 = Progress { task_name, step: InstallStep::QueryTask, ..p1 };
    let p3 = at(p2, InstallStep::ChooseTarget);
    let p4 = at(p3, InstallStep::ReadChecksums);
    let p5 = at(p4, InstallStep::SelectRelease);
    let p6 = Progress { asset, step: InstallStep::Download, ..p5 };
    let p7 = at(p6, InstallStep::ReadBefore);
    let p8 = Progress {
        version_before: Some(status.version),
        service_before: status.service_binary_version,
        step: InstallStep::AskActiveBefore,
        ..p7
    };
    let p9 = Progress {
        service_was_active: true,
        binary_replaced: false,
        step: InstallStep::ReadServiceCopy,
        ..p8
    };
    let p10 = at(p9, InstallStep::ReadCredential);
    let p11 = at(p10, InstallStep::AskEnabled);
    let p12 = Progress { unit_enabled: true, step: InstallStep::AskActive, ..p11 };
    let p13 = at(p12, InstallStep::RegisterTask);
    let p14 = at(p13, InstallStep::StartTask);
    let p15 = at(p14, InstallStep::WriteRecord);
    let p16 = at(p15, InstallStep::ReadBack);
    assert(events.skip(0) =~= events);
    lemma_one_event(plan, progress, events, 0, p1);
    lemma_one_event(plan, p1, events, 1, p2);
    lemma_one_event(plan, p2, events, 2, p3);
    lemma_one_event(plan, p3, events, 3, p4);
    lemma_one_event(plan, p4, events, 4, p5);
    lemma_one_event(plan, p5, events, 5, p6);
    lemma_one_event(plan, p6, events, 6, p7);
    lemma_one_event(plan, p7, events, 7, p8);
    lemma_one_event(plan, p8, events, 8, p9);
    lemma_one_event(plan, p9, events, 9, p10);
    lemma_one_event(plan, p10, events, 10, p11);
    lemma_one_event(plan, p11, events, 11, p12);
    lemma_one_event(plan, p12, events, 12, p13);
    lemma_one_event(plan, p13, events, 13, p14);
    lemma_one_event(plan, p14, events, 14, p15);
    lemma_one_event(plan, p15, events, 15, p16);
    assert(events.skip(16) =~= Seq::empty());
    assert(performed(plan, progress, events) =~= healthy_steps());
}

// ---------------------------------------------------------------------------
// What each stage comes to
// ---------------------------------------------------------------------------

/// Whether a version that was reported is the one to install.
pub open spec fn is_version(found: Option<String>, version: Seq<char>) -> bool {
    found is Some && found->0@ == version
}

/// A handover is waited for as long as it takes. The one word of the unit that
/// refuses the install is `failed`: with every other word it goes on, to the
/// unit's main process once the status names the new version and the unit is
/// active, and to a pause otherwise; and a pause leads back to the status.
/// Nothing else of the progress changes.
pub proof fn law_a_handover_is_waited_for(
    plan: Provisioner,
    progress: Progress,
    word: Option<String>,
    version: Option<String>,
)
    ensures
        progress.step == InstallStep::HandoverActive ==> {
            let next = install_after(plan, progress, InstallEvent::Word(word)).next;
            let failed = word is Some && word->0@ == "failed"@;
            let active = word is Some && word->0@ == "active"@;
            &&& next is Err <==> failed
            &&& next matches Err(error) ==> error.class == Failure::WslProvisioning
            &&& !failed && !progress.handed_over ==> next == Ok::<Progress, ErrorView>(
                Progress { step: InstallStep::HandoverWait, ..progress },
            )
            &&& !failed && !active ==> next == Ok::<Progress, ErrorView>(
                Progress { step: InstallStep::HandoverWait, ..progress },
            )
            &&& active && progress.handed_over ==> next == Ok::<Progress, ErrorView>(
                Progress { step: InstallStep::HandoverMain, ..progress },
            )
        },
        progress.step == InstallStep::HandoverMain ==> install_after(
            plan,
            progress,
            InstallEvent::MainVersion(version),
        ).next == Ok::<Progress, ErrorView>(
            Progress {
                step: if version is Some && version->0@ == plan.version@ {
                    InstallStep::ReadCredential
                } else {
                    InstallStep::HandoverWait
                },
                ..progress
            },
        ),
        progress.step == InstallStep::HandoverWait ==> install_after(
            plan,
            progress,
            InstallEvent::Done,
        ).next == Ok::<Progress, ErrorView>(
            Progress { step: InstallStep::HandoverStatus, ..progress },
        ),
{
    reveal_strlit("active");
    reveal_strlit("failed");
    assert("active"@[0] == 'a' && "failed"@[0] == 'f');
}

/// Every look at a handover asks the binary anew whether the service is the new
/// version: an answer without that version is no handover, and only an answer
/// that cannot be had refuses the install.
pub proof fn law_a_handover_is_looked_at_anew(
    plan: Provisioner,
    progress: Progress,
    answer: LinuxAnswer,
)
    requires
        progress.step == InstallStep::HandoverStatus,
    ensures
        ({
            let next = install_after(plan, progress, InstallEvent::Answered(answer)).next;
            &&& next is Err <==> answer is Unreadable
            &&& next matches Err(error) ==> error.class == Failure::WslProvisioning
            &&& next matches Ok(now) ==> now == (Progress {
                handed_over: answer is Reported && is_version(
                    answer->Reported_0.service_binary_version,
                    plan.version@,
                ),
                step: InstallStep::HandoverActive,
                ..progress
            })
        }),
{
}

/// One look at a service that is still draining: what it answers, what its unit
/// says, and the pause.
pub open spec fn draining_look(answer: LinuxAnswer, word: Option<String>) -> Seq<InstallEvent> {
    seq![InstallEvent::Answered(answer), InstallEvent::Word(word), InstallEvent::Done]
}

/// Looks at a service that is still draining, one after the other.
pub open spec fn draining_looks(answer: LinuxAnswer, word: Option<String>, times: nat) -> Seq<
    InstallEvent,
>
    decreases times,
{
    if times == 0 {
        Seq::empty()
    } else {
        draining_look(answer, word) + draining_looks(answer, word, (times - 1) as nat)
    }
}

/// However often a service is found still draining, the install looks again and
/// gives up nothing: it stands where it stood, and a look that then finds the new
/// version, the unit active and the new main process ends the handover.
pub proof fn law_a_draining_service_is_looked_at_again(
    plan: Provisioner,
    progress: Progress,
    answer: LinuxAnswer,
    word: Option<String>,
    times: nat,
)
    requires
        progress.step == InstallStep::HandoverStatus,
        !progress.handed_over,
        answer !is Unreadable,
        answer is Reported ==> !is_version(
            answer->Reported_0.service_binary_version,
            plan.version@,
        ),
        word is Some ==> word->0@ != "failed"@,
    ensures
        left_at(plan, progress, draining_looks(answer, word, times)) == Ok::<Progress, ErrorView>(
            progress,
        ),
    decreases times,
{
    if times > 0 {
        let rest = draining_looks(answer, word, (times - 1) as nat);
        let events = draining_look(answer, word) + rest;
        let second = Progress { step: InstallStep::HandoverActive, ..progress };
        let third = Progress { step: InstallStep::HandoverWait, ..progress };
        assert(events.skip(0) =~= events);
        lemma_one_event(plan, progress, events, 0, second);
        lemma_one_event(plan, second, events, 1, third);
        lemma_one_event(plan, third, events, 2, progress);
        assert(events.skip(3) =~= rest);
        law_a_draining_service_is_looked_at_again(
            plan,
            progress,
            answer,
            word,
            (times - 1) as nat,
        );
    }
}

/// A preflight that is answered goes on from question to question, keeps the
/// answers, and stops only at a task that is somebody else's.
pub proof fn law_the_preflight_keeps_its_answers(
    plan: Provisioner,
    progress: Progress,
    ready: Readiness,
    name: String,
    task: Option<RegisteredTask>,
    message: String,
)
    ensures
        progress.step == InstallStep::Preflight ==> install_after(
            plan,
            progress,
            InstallEvent::Ready(ready),
        ).next == Ok::<Progress, ErrorView>(
            Progress { readiness: Some(ready), step: InstallStep::NameTask, ..progress },
        ),
        progress.step == InstallStep::NameTask ==> install_after(
            plan,
            progress,
            InstallEvent::TaskNamed(name),
        ).next == Ok::<Progress, ErrorView>(
            Progress { task_name: name, step: InstallStep::QueryTask, ..progress },
        ),
        progress.step == InstallStep::QueryTask ==> {
            let next = install_after(plan, progress, InstallEvent::TaskFound(task)).next;
            let foreign = task is Some && !task->0.product_owned;
            &&& !foreign ==> next == Ok::<Progress, ErrorView>(
                Progress { step: InstallStep::ChooseTarget, ..progress },
            )
            &&& foreign ==> next == Ok::<Progress, ErrorView>(
                Progress {
                    foreign_command: Some(task->0.command),
                    step: InstallStep::RefuseForeignTask,
                    ..progress
                },
            )
        },
        progress.step == InstallStep::RefuseForeignTask ==> (install_after(
            plan,
            progress,
            InstallEvent::Spelled(message),
        ).next matches Err(error) && error.class == Failure::Conflict && message@.is_suffix_of(
            error.message,
        )),
{
    let opening = prefix_text(Stage::Preflight) + ": "@;
    assert(message@.is_suffix_of(opening + message@));
}

/// The release is chosen, listed, selected and downloaded in that order, and the
/// archive that is downloaded is the one that was selected.
pub proof fn law_the_selected_archive_is_downloaded(
    plan: Provisioner,
    progress: Progress,
    asset: String,
    reason: String,
)
    ensures
        progress.step == InstallStep::ChooseTarget ==> install_after(
            plan,
            progress,
            InstallEvent::Done,
        ).next == Ok::<Progress, ErrorView>(
            Progress { step: InstallStep::ReadChecksums, ..progress },
        ),
        progress.step == InstallStep::ReadChecksums ==> install_after(
            plan,
            progress,
            InstallEvent::Done,
        ).next == Ok::<Progress, ErrorView>(
            Progress { step: InstallStep::SelectRelease, ..progress },
        ),
        progress.step == InstallStep::SelectRelease ==> install_after(
            plan,
            progress,
            InstallEvent::Selected(asset),
        ).next == Ok::<Progress, ErrorView>(
            Progress { asset, step: InstallStep::Download, ..progress },
        ),
        progress.step == InstallStep::Download ==> install_after(
            plan,
            progress,
            InstallEvent::Done,
        ).next == Ok::<Progress, ErrorView>(
            Progress { step: InstallStep::ReadBefore, ..progress },
        ),
        progress.step == InstallStep::Download ==> (install_after(
            plan,
            progress,
            InstallEvent::NoWorkDirectory(reason),
        ).next matches Err(error) && error.class == Failure::LocalState),
{
}

/// The binary is replaced exactly where the one that was there is not of the
/// version to install, or none answered. An active service is then asked for its
/// own version, and one that is not active is not.
pub proof fn law_only_another_version_is_replaced(
    plan: Provisioner,
    progress: Progress,
    answer: LinuxAnswer,
    word: Option<String>,
)
    ensures
        progress.step == InstallStep::ReadBefore ==> install_after(
            plan,
            progress,
            InstallEvent::Answered(answer),
        ).next == Ok::<Progress, ErrorView>(
            Progress {
                version_before: if answer is Reported {
                    Some(answer->Reported_0.version)
                } else {
                    None
                },
                service_before: if answer is Reported {
                    answer->Reported_0.service_binary_version
                } else {
                    None
                },
                step: InstallStep::AskActiveBefore,
                ..progress
            },
        ),
        progress.step == InstallStep::AskActiveBefore ==> {
            let next = install_after(plan, progress, InstallEvent::Word(word)).next;
            let active = word is Some && word->0@ == "active"@;
            let same = is_version(progress.version_before, plan.version@);
            let stuck = active && progress.service_before is Some && progress.service_before->0@
                != plan.version@ && !hands_over(Some(progress.service_before->0@));
            &&& next is Err <==> stuck
            &&& next matches Err(error) ==> error.class == Failure::WslProvisioning
            &&& next matches Ok(now) ==> now == (Progress {
                service_was_active: active,
                binary_replaced: !same,
                step: if !same {
                    InstallStep::InstallBinary
                } else if active {
                    InstallStep::ReadServiceCopy
                } else {
                    InstallStep::ReadCredential
                },
                ..progress
            })
        },
        progress.step == InstallStep::InstallBinary ==> install_after(
            plan,
            progress,
            InstallEvent::Done,
        ).next == Ok::<Progress, ErrorView>(
            Progress {
                step: if progress.service_was_active {
                    InstallStep::ReadServiceCopy
                } else {
                    InstallStep::ReadCredential
                },
                ..progress
            },
        ),
{
}

/// An active service that already runs the new version needs no handover; one
/// that hands itself over is waited for; and every other one, with one that
/// cannot be read, is left alone and the install refused.
pub proof fn law_an_active_service_hands_over_or_is_left_alone(
    plan: Provisioner,
    progress: Progress,
    answer: LinuxAnswer,
)
    requires
        progress.step == InstallStep::ReadServiceCopy,
    ensures
        ({
            let next = install_after(plan, progress, InstallEvent::Answered(answer)).next;
            let service = answer->Reported_0.service_binary_version;
            let new = answer is Reported && is_version(service, plan.version@);
            let able = answer is Reported && service is Some && hands_over(Some(service->0@));
            &&& new ==> next == Ok::<Progress, ErrorView>(
                Progress { step: InstallStep::ReadCredential, ..progress },
            )
            &&& !new && able ==> next == Ok::<Progress, ErrorView>(
                Progress { step: InstallStep::HandoverStatus, ..progress },
            )
            &&& !new && !able ==> (next matches Err(error) && error.class
                == Failure::WslProvisioning)
        }),
{
}

/// A release hands its service over exactly from 0.1.8 on; a service that says
/// nothing of its version, or anything but a plain one, does not.
pub proof fn law_releases_from_a_known_one_on_hand_over(version: (u64, u64, u64), raw: Seq<char>)
    ensures
        hands_over(Some(release::version_text(version))) <==> version.0 > 0 || version.1 > 1 || (
        version.1 == 1 && version.2 >= 8),
        !hands_over(None),
        raw.contains('-') || raw.contains('+') ==> !hands_over(Some(raw)),
        release::version_of(raw) is None ==> !hands_over(Some(raw)),
{
    release::law_a_written_version_reads_back(version);
    let text = release::version_text(version);
    text::lemma_decimal_reads_back(version.0 as nat);
    text::lemma_decimal_reads_back(version.1 as nat);
    text::lemma_decimal_reads_back(version.2 as nat);
    assert forall|i: int| 0 <= i < text.len() implies text[i] != '-' && text[i] != '+' by {
        let major = text::decimal(version.0 as nat);
        let minor = text::decimal(version.1 as nat);
        let patch = text::decimal(version.2 as nat);
        let a = major.len() as int;
        let b = a + 1 + minor.len();
        if i < a {
            assert(text[i] == major[i]);
            assert(text::is_digit(major[i]));
        } else if i > a && i < b {
            assert(text[i] == minor[i - a - 1]);
            assert(text::is_digit(minor[i - a - 1]));
        } else if i > b {
            assert(text[i] == patch[i - b - 1]);
            assert(text::is_digit(patch[i - b - 1]));
        }
    }
}

/// A credential that is there is kept, one is issued where the distribution says
/// that it holds none, and nothing is issued over a store that cannot be read or
/// by a binary that does not answer. What follows is the capacity, where one was
/// supplied, and the service otherwise.
pub proof fn law_a_credential_is_kept_or_issued(
    plan: Provisioner,
    progress: Progress,
    answer: LinuxAnswer,
    shown: String,
    delivered: bool,
)
    ensures
        ({
            let settled = if plan.capacity is Some {
                InstallStep::SetCapacity
            } else {
                InstallStep::AskEnabled
            };
            &&& progress.step == InstallStep::ReadCredential ==> {
                let next = install_after(plan, progress, InstallEvent::Answered(answer)).next;
                let status = answer->Reported_0;
                &&& answer !is Reported ==> (next matches Err(error) && error.class
                    == Failure::WslProvisioning)
                &&& answer is Reported && status.credential_present ==> next == Ok::<
                    Progress,
                    ErrorView,
                >(Progress { step: settled, ..progress })
                &&& answer is Reported && !status.credential_present
                    && status.credential_unreadable is Some ==> (next matches Err(error)
                    && error.class == Failure::SecretStore)
                &&& answer is Reported && !status.credential_present
                    && status.credential_unreadable is None ==> next == Ok::<Progress, ErrorView>(
                    Progress { step: InstallStep::IssueCredential, ..progress },
                )
            }
            &&& progress.step == InstallStep::IssueCredential ==> install_after(
                plan,
                progress,
                InstallEvent::Issued { shown, delivered },
            ).next == Ok::<Progress, ErrorView>(
                Progress { credential_issued: delivered, step: settled, ..progress },
            )
            &&& progress.step == InstallStep::SetCapacity ==> install_after(
                plan,
                progress,
                InstallEvent::Done,
            ).next == Ok::<Progress, ErrorView>(
                Progress { step: InstallStep::AskEnabled, ..progress },
            )
        }),
{
}

/// A unit that is active is kept, and enabled where it is not; one that is only
/// enabled is started; and only where it is neither is a service installed and
/// then started. The lifecycle task follows in every case.
pub proof fn law_a_unit_is_adopted_started_or_installed(
    plan: Provisioner,
    progress: Progress,
    word: Option<String>,
)
    ensures
        progress.step == InstallStep::AskEnabled ==> install_after(
            plan,
            progress,
            InstallEvent::Word(word),
        ).next == Ok::<Progress, ErrorView>(
            Progress {
                unit_enabled: word is Some && word->0@ == "enabled"@,
                step: InstallStep::AskActive,
                ..progress
            },
        ),
        progress.step == InstallStep::AskActive ==> {
            let active = word is Some && word->0@ == "active"@;
            install_after(plan, progress, InstallEvent::Word(word)).next == Ok::<
                Progress,
                ErrorView,
            >(
                Progress {
                    step: if active && progress.unit_enabled {
                        InstallStep::RegisterTask
                    } else if active {
                        InstallStep::EnableUnit
                    } else if progress.unit_enabled {
                        InstallStep::StartAdopted
                    } else {
                        InstallStep::InstallService
                    },
                    ..progress
                },
            )
        },
        progress.step == InstallStep::EnableUnit || progress.step == InstallStep::StartAdopted
            ==> install_after(plan, progress, InstallEvent::Done).next == Ok::<
            Progress,
            ErrorView,
        >(Progress { step: InstallStep::RegisterTask, ..progress }),
        progress.step == InstallStep::InstallService ==> install_after(
            plan,
            progress,
            InstallEvent::Done,
        ).next == Ok::<Progress, ErrorView>(
            Progress { step: InstallStep::StartInstalled, ..progress },
        ),
        progress.step == InstallStep::StartInstalled ==> install_after(
            plan,
            progress,
            InstallEvent::Done,
        ).next == Ok::<Progress, ErrorView>(
            Progress { service_installed: true, step: InstallStep::RegisterTask, ..progress },
        ),
{
}

/// The task is registered and started, the record is written, and then the host
/// is read back.
pub proof fn law_the_task_and_the_record_come_last(plan: Provisioner, progress: Progress)
    ensures
        progress.step == InstallStep::RegisterTask ==> install_after(
            plan,
            progress,
            InstallEvent::Done,
        ).next == Ok::<Progress, ErrorView>(
            Progress { step: InstallStep::StartTask, ..progress },
        ),
        progress.step == InstallStep::StartTask ==> install_after(
            plan,
            progress,
            InstallEvent::Done,
        ).next == Ok::<Progress, ErrorView>(
            Progress { step: InstallStep::WriteRecord, ..progress },
        ),
        progress.step == InstallStep::WriteRecord ==> install_after(
            plan,
            progress,
            InstallEvent::Done,
        ).next == Ok::<Progress, ErrorView>(
            Progress { step: InstallStep::ReadBack, ..progress },
        ),
{
}

/// A step that is refused or fails ends the install with that failure: its class
/// and its own words, after a sentence that names the stage and says whether
/// anything was changed.
pub proof fn law_a_refused_step_ends_the_install(
    plan: Provisioner,
    progress: Progress,
    source: WslError,
    error: CliError,
)
    requires
        progress.step != InstallStep::ReadBack,
    ensures
        ({
            let refused = install_after(plan, progress, InstallEvent::Refused(source));
            let failed = install_after(plan, progress, InstallEvent::Failed(error));
            let early = progress.step == InstallStep::Preflight || progress.step
                == InstallStep::NameTask || progress.step == InstallStep::QueryTask || progress.step
                == InstallStep::RefuseForeignTask;
            let opening = if early {
                "preflight failed, so nothing has been changed and no credential was issued: "@
            } else {
                "the "@
            };
            &&& refused.next matches Err(said) && said.class == wsl_error::reported(source).class
                && source.message@.is_suffix_of(said.message) && said.remedy is Some
            &&& failed.next matches Err(said) && said.class == error@.class
                && error@.message.is_suffix_of(said.message) && (error@.remedy is Some
                ==> said.remedy == error@.remedy)
            &&& opening.is_prefix_of(refused.next->Err_0.message)
            &&& opening.is_prefix_of(failed.next->Err_0.message)
        }),
{
    let stage = stage_of(progress.step);
    let opening = prefix_text(stage) + ": "@;
    lemma_ends(opening, source.message@);
    lemma_ends(opening, error@.message);
    lemma_begins(opening, source.message@);
    lemma_begins(opening, error@.message);
    if stage == Stage::Preflight {
        reveal_strlit("preflight");
        reveal_strlit(" failed, so nothing has been changed and no credential was issued");
        reveal_strlit(": ");
        reveal_strlit(
            "preflight failed, so nothing has been changed and no credential was issued: ",
        );
        assert(opening
            =~= "preflight failed, so nothing has been changed and no credential was issued: "@);
    } else {
        let rest = stage.name()
            + " stage failed; earlier stages stand and `wsl install` is safe to run again once this is fixed"@
            + ": "@;
        assert(opening =~= "the "@ + rest);
        assert(opening + source.message@ =~= "the "@ + (rest + source.message@));
        assert(opening + error@.message =~= "the "@ + (rest + error@.message));
        lemma_begins("the "@, rest + source.message@);
        lemma_begins("the "@, rest + error@.message);
    }
}

/// A text begins with what it was put together from.
proof fn lemma_begins(left: Seq<char>, right: Seq<char>)
    ensures
        left.is_prefix_of(left + right),
{
}

/// A text ends with what was put at its end.
proof fn lemma_ends(left: Seq<char>, right: Seq<char>)
    ensures
        right.is_suffix_of(left + right),
{
}

/// Each step runs the command it is for: the status is asked of the binary that
/// is installed, the unit is asked, enabled and started by name, the credential
/// is received and the service installed for a start at boot, and the capacity
/// is the one that was supplied. No other step runs anything.
pub proof fn law_a_step_runs_the_command_it_is_for(plan: Provisioner, step: InstallStep)
    ensures
        ({
            let binary = plan.linux_binary@;
            let unit = plan.unit@;
            let asks_status = step == InstallStep::ReadBefore || step
                == InstallStep::ReadServiceCopy || step == InstallStep::HandoverStatus || step
                == InstallStep::ReadCredential;
            let asks_active = step == InstallStep::AskActiveBefore || step
                == InstallStep::HandoverActive || step == InstallStep::AskActive;
            let starts = step == InstallStep::StartAdopted || step == InstallStep::StartInstalled;
            &&& asks_status ==> command_at(plan, step) == Some(
                seq![binary, "status"@, "--json"@],
            )
            &&& asks_active ==> command_at(plan, step) == Some(
                seq!["systemctl"@, "is-active"@, unit],
            )
            &&& starts ==> command_at(plan, step) == Some(seq!["systemctl"@, "start"@, unit])
            &&& step == InstallStep::AskEnabled ==> command_at(plan, step) == Some(
                seq!["systemctl"@, "is-enabled"@, unit],
            )
            &&& step == InstallStep::EnableUnit ==> command_at(plan, step) == Some(
                seq!["systemctl"@, "enable"@, unit],
            )
            &&& step == InstallStep::HandoverMain ==> command_at(plan, step) == Some(
                seq!["systemctl"@, "show"@, "--property=MainPID"@, "--value"@, unit],
            )
            &&& step == InstallStep::IssueCredential ==> command_at(plan, step) == Some(
                seq![binary, "auth"@, "receive"@, "--start-at"@, "boot"@],
            )
            &&& step == InstallStep::InstallService ==> command_at(plan, step) == Some(
                seq![binary, "service"@, "install"@, "--start-at"@, "boot"@],
            )
            &&& step == InstallStep::SetCapacity ==> (plan.capacity matches Some(capacity)
                ==> command_at(plan, step) == Some(
                seq![binary, "host"@, "set-capacity"@, text::decimal(capacity as nat)],
            ))
            &&& !asks_status && !asks_active && !starts && step != InstallStep::AskEnabled && step
                != InstallStep::EnableUnit && step != InstallStep::HandoverMain && step
                != InstallStep::IssueCredential && step != InstallStep::InstallService && step
                != InstallStep::SetCapacity ==> command_at(plan, step) is None
        }),
{
}

/// What is registered and recorded is of the distribution that answered the
/// preflight and of the task that was named; the task starts the binary that was
/// installed, and the record holds the version and the moment.
pub proof fn law_the_task_and_the_record_are_of_this_install(
    plan: Provisioner,
    progress: Progress,
    ready: Readiness,
    task: TaskRegistration,
    record: ProviderRecord,
    now: Moment,
)
    requires
        progress.readiness == Some(ready),
        registers(task, plan, progress),
        records(record, plan, progress, now),
    ensures
        task.distribution@ == ready.name@ && task.task_name@ == progress.task_name@
            && task.linux_binary@ == plan.linux_binary@,
        record.distribution@ == ready.name@ && record.task_name@ == progress.task_name@
            && record.installed_version@ == plan.version@ && record.last_verified == now,
{
}

/// An event that does not answer the step that an install stands at changes
/// nothing.
pub proof fn law_an_install_waits_for_its_answer(
    plan: Provisioner,
    progress: Progress,
    event: InstallEvent,
)
    requires
        event !is Refused,
        event !is Failed,
        match progress.step {
            InstallStep::Preflight => event !is Ready,
            InstallStep::NameTask => event !is TaskNamed,
            InstallStep::QueryTask => event !is TaskFound,
            InstallStep::RefuseForeignTask => event !is Spelled,
            InstallStep::SelectRelease => event !is Selected,
            InstallStep::Download => event !is Done && event !is NoWorkDirectory,
            InstallStep::ReadBefore | InstallStep::ReadServiceCopy | InstallStep::HandoverStatus
            | InstallStep::ReadCredential => event !is Answered,
            InstallStep::AskActiveBefore | InstallStep::HandoverActive | InstallStep::AskEnabled
            | InstallStep::AskActive => event !is Word,
            InstallStep::HandoverMain => event !is MainVersion,
            InstallStep::IssueCredential => event !is Issued,
            InstallStep::ReadBack => true,
            _ => event !is Done,
        },
    ensures
        install_after(plan, progress, event).next == Ok::<Progress, ErrorView>(progress),
{
}

/// A failure inside a stage keeps its class, its sentence and its remedy, and is
/// told with the stage in front of it. One without a remedy gets the command that
/// looks at the host.
pub proof fn law_a_failure_is_told_with_its_stage(stage: Stage, error: ErrorView)
    ensures
        staged(stage, error).class == error.class,
        staged(stage, error).message == prefix_text(stage) + ": "@ + error.message,
        error.remedy is Some ==> staged(stage, error).remedy == error.remedy,
        error.remedy is None ==> staged(stage, error).remedy == Some(
            "runner-manager wsl status --distribution <NAME>"@,
        ),
{
}

/// Only the last look, which belongs to no stage, fails without one.
pub proof fn law_only_the_last_look_has_no_stage(step: InstallStep, error: ErrorView)
    ensures
        step == InstallStep::ReadBack ==> failure_at(step, error) == error,
        step != InstallStep::ReadBack ==> failure_at(step, error).message == prefix_text(
            stage_of(step),
        ) + ": "@ + error.message && failure_at(step, error).class == error.class,
{
}

/// Whether a message opens with the sentence of a stage and ends with a reason.
pub open spec fn tells(message: Seq<char>, stage: Stage, reason: Seq<char>) -> bool {
    exists|between: Seq<char>| message == #[trigger] (prefix_text(stage) + between + reason)
}

/// An answer that cannot be used ends the install in the stage that asked, with
/// the reason: about the service before and during a handover, and about the
/// credential before one is issued.
pub proof fn law_an_unusable_answer_is_told_with_its_stage(
    plan: Provisioner,
    progress: Progress,
    answer: LinuxAnswer,
)
    ensures
        ({
            let next = install_after(plan, progress, InstallEvent::Answered(answer)).next;
            &&& progress.step == InstallStep::ReadServiceCopy ==> {
                &&& answer matches LinuxAnswer::Unusable(why) ==> tells(
                    next->Err_0.message,
                    Stage::Service,
                    why@,
                )
                &&& answer matches LinuxAnswer::Unreadable(why) ==> tells(
                    next->Err_0.message,
                    Stage::Service,
                    why@,
                )
            }
            &&& progress.step == InstallStep::HandoverStatus ==> {
                &&& answer matches LinuxAnswer::Unreadable(why) ==> next is Err && tells(
                    next->Err_0.message,
                    Stage::Service,
                    why@,
                )
                &&& !(answer is Unreadable) ==> next is Ok
            }
            &&& progress.step == InstallStep::ReadCredential ==> {
                &&& answer matches LinuxAnswer::Unusable(why) ==> tells(
                    next->Err_0.message,
                    Stage::Credential,
                    why@,
                )
                &&& answer matches LinuxAnswer::Unreadable(why) ==> tells(
                    next->Err_0.message,
                    Stage::Credential,
                    why@,
                )
                &&& answer matches LinuxAnswer::Reported(status) ==> (
                status.credential_unreadable matches Some(why) ==> (!status.credential_present
                    ==> tells(next->Err_0.message, Stage::Credential, why@)))
            }
        }),
{
    let message = install_after(plan, progress, InstallEvent::Answered(answer)).next->Err_0.message;
    let service = prefix_text(Stage::Service);
    let credential = prefix_text(Stage::Credential);
    let told = distribution_of(progress);
    match (progress.step, answer) {
        (InstallStep::ReadServiceCopy, LinuxAnswer::Unusable(why)) => {
            let between = ": the updated Linux binary would not report the active service copy, so this cannot prove that it supports a safe handover: "@;
            assert(message =~= service + between + why@);
        },
        (InstallStep::ReadServiceCopy, LinuxAnswer::Unreadable(why)) => {
            let between = ": cannot read the active service copy after replacing the Linux source binary: "@;
            assert(message =~= service + between + why@);
        },
        (InstallStep::HandoverStatus, LinuxAnswer::Unreadable(why)) => {
            let between = ": cannot observe the cooperative service handover: "@;
            assert(message =~= service + between + why@);
        },
        (InstallStep::ReadCredential, LinuxAnswer::Unusable(why)) => {
            let between = ": the runner-manager at "@ + plan.linux_binary@ + " in "@ + told
                + " would not answer `status --json`, so this cannot tell whether the distribution already holds a credential and will not issue one blind: "@;
            assert(message =~= credential + between + why@);
        },
        (InstallStep::ReadCredential, LinuxAnswer::Unreadable(why)) => {
            assert(message =~= credential + ": "@ + why@);
        },
        (InstallStep::ReadCredential, LinuxAnswer::Reported(status)) => {
            if let Some(why) = status.credential_unreadable {
                if !status.credential_present {
                    let between = ": "@ + told
                        + "'s credential store could not be read, so this cannot tell whether it already holds a credential and will not issue one over a value it cannot see: "@;
                    assert(message =~= credential + between + why@);
                }
            }
        },
        _ => {},
    }
}

/// An install says that it replaces the binary only where it does, and that it
/// leaves it alone only where it does; and so it says of a credential that it is
/// kept, or issued.
pub proof fn law_an_install_says_what_becomes_of_binary_and_credential(
    plan: Provisioner,
    progress: Progress,
    word: Option<String>,
    answer: LinuxAnswer,
)
    ensures
        progress.step == InstallStep::AskActiveBefore ==> {
            let moved = install_after(plan, progress, InstallEvent::Word(word));
            moved.next matches Ok(next) ==> {
                &&& next.step == InstallStep::InstallBinary ==> moved.said == "Installing "@
                    + progress.asset@ + " into "@ + distribution_of(progress) + "\n"@
                &&& next.step != InstallStep::InstallBinary ==> moved.said == distribution_of(
                    progress,
                ) + " already runs runner-manager "@ + plan.version@
                    + "; the binary is left alone.\n"@
            }
        },
        progress.step == InstallStep::ReadCredential ==> {
            let moved = install_after(plan, progress, InstallEvent::Answered(answer));
            moved.next matches Ok(next) ==> {
                &&& next.step == InstallStep::IssueCredential ==> moved.said == distribution_of(
                    progress,
                )
                    + " holds no credential of its own, so this signs in for it now. The credential is issued to the distribution and is never stored here.\n"@
                &&& next.step != InstallStep::IssueCredential ==> moved.said == distribution_of(
                    progress,
                ) + " already holds its own credential; it is left untouched.\n"@
            }
        },
{
}

} // verus!
