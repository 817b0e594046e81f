//! The state of a managed distribution, as it is read from the distribution
//! itself, and how it is reported.

use vstd::prelude::*;

use crate::failure;
use crate::failure::{CliError, ErrorView, Failure};
use crate::text;
use crate::text::{
    parse_u64, push_decimal, quoted, same_text, split_words, to_ascii_lowercase,
};
use crate::wsl_error;
use crate::wsl_error::{wsl_failure, WslError};

verus! {

/// The version of the status document.
pub const WSL_STATUS_SCHEMA_VERSION: u32 = 1;

/// When a managed host exists at all.
pub const AVAILABILITY_NOTE: &'static str =
    "This host is available after the owning Windows account logs on, because a WSL distribution is registered per user. It does not come up between a Windows reboot and the first interactive logon.";

/// What the description of a scheduled task of this product carries.
pub const PRODUCT_MARKER: &'static str = "managed-by: runner-manager wsl";

// ---------------------------------------------------------------------------
// Moments
// ---------------------------------------------------------------------------

/// A moment: seconds since 1970 in UTC, and the nanoseconds on top.
#[derive(Debug, Clone, Copy, PartialEq, Eq, Structural)]
pub struct Moment {
    pub seconds: i64,
    pub nanos: u32,
}

/// A moment as a person reads it.
pub uninterp spec fn moment_text(seconds: int, nanos: int) -> Seq<char>;

/// Wraps `chrono::DateTime::<Utc>::from_timestamp` and its `Display`. Claimed of
/// them: the text depends on the moment alone. How a date is written is not
/// stated here; a moment that chrono cannot represent prints as nothing.
#[verifier::external_body]
fn show_moment(seconds: i64, nanos: u32) -> (shown: String)
    ensures
        shown@ == moment_text(seconds as int, nanos as int),
{
    match chrono::DateTime::from_timestamp(seconds, nanos) {
        Some(moment) => moment.to_string(),
        None => String::new(),
    }
}

impl Moment {
    /// The moment as a person reads it.
    pub fn shown(&self) -> (shown: String)
        ensures
            shown@ == moment_text(self.seconds as int, self.nanos as int),
    {
        show_moment(self.seconds, self.nanos)
    }
}

// ---------------------------------------------------------------------------
// What was asked, and what was answered
// ---------------------------------------------------------------------------

/// How a command inside the distribution ended.
#[derive(Debug, Clone)]
pub enum CommandEnd {
    /// It ran. The texts are trimmed; `diagnostic` is the child's own words
    /// about a failure.
    Ran { success: bool, stdout: String, stderr: String, diagnostic: String },
    /// It could not be run, for this reason.
    CannotRun(String),
}

/// What the Linux binary's own `status --json` says, as far as it is read.
#[derive(Debug, Clone)]
pub struct LinuxStatus {
    pub version: String,
    pub service_binary_version: Option<String>,
    pub credential_present: bool,
    pub credential_unreadable: Option<String>,
    pub store_scope: Option<String>,
    pub capacity: u16,
}

/// What asking the Linux binary for its status came to.
#[derive(Debug, Clone)]
pub enum LinuxAnswer {
    /// It answered, and the answer could be read.
    Reported(LinuxStatus),
    /// Nothing usable is there, in the child's own words.
    Unusable(String),
    /// It could not be asked, or its answer could not be read.
    Unreadable(String),
}

/// The sentence about an answer that cannot be read.
pub open spec fn unreadable_answer_text(
    distribution: Seq<char>,
    binary: Seq<char>,
    reason: Seq<char>,
) -> Seq<char> {
    "the runner-manager at "@ + binary + " in "@ + distribution
        + " answered `status --json` with something this build cannot read: "@ + reason
}

/// Decides what an answer to `status --json` is. `parsed` is what reading the
/// output came to.
pub fn linux_status(
    distribution: &str,
    binary: &str,
    end: CommandEnd,
    parsed: Result<LinuxStatus, String>,
) -> (answer: LinuxAnswer)
    ensures
        match end {
            CommandEnd::CannotRun(reason) => answer == LinuxAnswer::Unreadable(reason),
            CommandEnd::Ran { success, diagnostic, .. } => if !success {
                answer == LinuxAnswer::Unusable(diagnostic)
            } else {
                match parsed {
                    Ok(status) => answer == LinuxAnswer::Reported(status),
                    Err(reason) => answer matches LinuxAnswer::Unreadable(said) && said@
                        == unreadable_answer_text(distribution@, binary@, reason@),
                }
            },
        },
{
    match end {
        CommandEnd::CannotRun(reason) => LinuxAnswer::Unreadable(reason),
        CommandEnd::Ran { success, diagnostic, .. } => {
            if !success {
                return LinuxAnswer::Unusable(diagnostic);
            }
            match parsed {
                Ok(status) => LinuxAnswer::Reported(status),
                Err(reason) => {
                    let mut said = "the runner-manager at ".to_owned();
                    said.append(binary);
                    said.append(" in ");
                    said.append(distribution);
                    said.append(
                        " answered `status --json` with something this build cannot read: ",
                    );
                    said.append(reason.as_str());
                    LinuxAnswer::Unreadable(said)
                },
            }
        },
    }
}

/// The word that `systemctl` answered: what it printed, else what it
/// complained, else nothing.
pub open spec fn word_of(end: CommandEnd) -> Option<String> {
    match end {
        CommandEnd::CannotRun(_) => None,
        CommandEnd::Ran { stdout, stderr, .. } => if stdout@.len() > 0 {
            Some(stdout)
        } else if stderr@.len() > 0 {
            Some(stderr)
        } else {
            None
        },
    }
}

/// Reads one word out of `systemctl`. Its exit code is not looked at: `disabled`
/// and `inactive` are answers too.
pub fn systemctl_word(end: CommandEnd) -> (word: Option<String>)
    ensures
        word == word_of(end),
{
    match end {
        CommandEnd::CannotRun(_) => None,
        CommandEnd::Ran { stdout, stderr, .. } => {
            if !stdout.as_str().is_empty() {
                Some(stdout)
            } else if !stderr.as_str().is_empty() {
                Some(stderr)
            } else {
                None
            }
        },
    }
}

/// The process that a `MainPID` names: a positive number that fits in 32 bits.
pub open spec fn main_pid_of(word: Option<Seq<char>>) -> Option<u64> {
    match word {
        None => None,
        Some(digits) => match text::u64_of(digits) {
            Some(pid) if 0 < pid && pid <= u32::MAX => Some(pid),
            _ => None,
        },
    }
}

/// Reads the main process out of what `systemctl show` answered.
pub fn main_pid(word: &Option<String>) -> (pid: Option<u64>)
    ensures
        pid == main_pid_of(text::opt_text(*word)),
{
    match word {
        None => None,
        Some(digits) => match parse_u64(digits.as_str()) {
            Some(pid) => {
                if 0 < pid && pid <= 0xffff_ffff {
                    Some(pid)
                } else {
                    None
                }
            },
            None => None,
        },
    }
}

/// The executable of a running process.
pub fn process_executable(pid: u64) -> (path: String)
    ensures
        path@ == "/proc/"@ + text::decimal(pid as nat) + "/exe"@,
{
    let mut path = "/proc/".to_owned();
    push_decimal(&mut path, pid);
    path.append("/exe");
    path
}

/// The version that a `--version` run reported: the last word it printed.
pub open spec fn version_reported(end: CommandEnd) -> Option<Seq<char>> {
    match end {
        CommandEnd::Ran { success, stdout, .. } if success && text::words(stdout@).len() > 0 => Some(
            text::words(stdout@).last(),
        ),
        _ => None,
    }
}

/// Reads the version that a `--version` run reported.
pub fn reported_version(end: &CommandEnd) -> (version: Option<String>)
    ensures
        text::opt_text(version) == version_reported(*end),
{
    match end {
        CommandEnd::Ran { success, stdout, .. } => {
            if !*success {
                return None;
            }
            let mut words = split_words(stdout.as_str());
            assert(words@.len() == text::texts(words@).len());
            if words.len() == 0 {
                return None;
            }
            assert(text::texts(words@).last() == words@.last()@);
            words.pop()
        },
        CommandEnd::CannotRun(_) => None,
    }
}

// ---------------------------------------------------------------------------
// The parts of the document
// ---------------------------------------------------------------------------

/// What this machine recorded about a host. It is advisory.
#[derive(Debug, Clone)]
pub struct ProviderRecordSnapshot {
    pub schema_version: u32,
    pub distribution: String,
    pub task_name: String,
    pub installed_version: String,
    pub last_verified: Moment,
}

/// A distribution that passed every preflight question.
#[derive(Debug, Clone)]
pub struct Readiness {
    pub name: String,
    pub wsl_version: u8,
    pub default: bool,
    pub architecture: String,
    pub machine: String,
    pub systemd: String,
}

/// The distribution itself.
#[derive(Debug, Clone)]
pub struct WslSnapshot {
    /// Installed, WSL2, root-capable and running systemd.
    pub ready: bool,
    pub installed: bool,
    pub wsl_version: Option<u8>,
    pub default: Option<bool>,
    pub architecture: Option<String>,
    pub machine: Option<String>,
    pub systemd: Option<String>,
    /// Why it is not ready, in the words of the check that refused.
    pub problem: Option<String>,
}

/// The Linux binary.
#[derive(Debug, Clone)]
pub struct BinarySnapshot {
    pub path: String,
    pub installed: bool,
    pub version: Option<String>,
    /// Whether it is the version that this build provisions.
    pub matches_expected: bool,
    pub problem: Option<String>,
}

/// Whether the distribution's own store holds a credential.
#[derive(Debug, Clone)]
pub struct CredentialSnapshot {
    pub present: bool,
    pub unreadable: Option<String>,
    pub store_scope: Option<String>,
}

/// The systemd unit.
#[derive(Debug, Clone)]
pub struct ServiceSnapshot {
    pub unit: String,
    /// `systemctl is-enabled` in its own word.
    pub enabled: Option<String>,
    /// `systemctl is-active` in its own word.
    pub active: Option<String>,
    /// The version of the binary that the service runs.
    pub binary_version: Option<String>,
    pub matches_expected: bool,
    pub healthy: bool,
}

/// A scheduled task that is registered.
#[derive(Debug, Clone)]
pub struct RegisteredTask {
    /// Whether its description carries [`PRODUCT_MARKER`].
    pub product_owned: bool,
    pub enabled: bool,
    pub running: bool,
    pub command: String,
    pub arguments: String,
}

/// The lifecycle task.
#[derive(Debug, Clone)]
pub struct TaskSnapshot {
    pub name: String,
    pub registered: bool,
    /// A task of this name that is not owned is never changed or removed.
    pub product_owned: bool,
    pub enabled: bool,
    pub running: bool,
    pub command: Option<String>,
    pub arguments: Option<String>,
}

/// Something a workload may need that provisioning does not.
#[derive(Debug, Clone)]
pub struct Diagnostic {
    pub name: String,
    pub available: bool,
    pub detail: String,
}

/// One managed distribution's real state. Everything is read from the
/// distribution or from the task scheduler; the record only contributes to
/// `drift`.
#[derive(Debug, Clone)]
pub struct WslStatusDocument {
    pub schema_version: u32,
    pub generated_at: Moment,
    pub distribution: String,
    /// Whether this host can accept jobs.
    pub healthy: bool,
    /// The version that this build provisions.
    pub expected_version: String,
    pub provider_record: Option<ProviderRecordSnapshot>,
    pub wsl: WslSnapshot,
    pub binary: BinarySnapshot,
    pub credential: CredentialSnapshot,
    pub service: ServiceSnapshot,
    pub lifecycle_task: TaskSnapshot,
    pub capacity: Option<u16>,
    pub diagnostics: Vec<Diagnostic>,
    /// Where the record and the host disagree.
    pub drift: Vec<String>,
    pub availability: &'static str,
}

/// The distribution half of the document.
pub open spec fn shows_wsl(
    wsl: WslSnapshot,
    readiness: Result<Readiness, String>,
    listed: bool,
) -> bool {
    match readiness {
        Ok(ready) => {
            &&& wsl.ready && wsl.installed
            &&& wsl.wsl_version == Some(ready.wsl_version)
            &&& wsl.default == Some(ready.default)
            &&& text::opt_text(wsl.architecture) == Some(text::lower_text(ready.architecture@))
            &&& text::opt_text(wsl.machine) == Some(ready.machine@)
            &&& text::opt_text(wsl.systemd) == Some(ready.systemd@)
            &&& wsl.problem is None
        },
        Err(problem) => {
            &&& !wsl.ready
            &&& wsl.installed == listed
            &&& wsl.wsl_version is None && wsl.default is None && wsl.architecture is None
            &&& wsl.machine is None && wsl.systemd is None
            &&& text::opt_text(wsl.problem) == Some(problem@)
        },
    }
}

/// The distribution half of the document. A distribution can be listed and
/// still fail the preflight, so `listed` is asked for apart.
pub fn wsl_snapshot(readiness: &Result<Readiness, String>, listed: bool) -> (wsl: WslSnapshot)
    ensures
        shows_wsl(wsl, *readiness, listed),
{
    match readiness {
        Ok(ready) => WslSnapshot {
            ready: true,
            installed: true,
            wsl_version: Some(ready.wsl_version),
            default: Some(ready.default),
            architecture: Some(to_ascii_lowercase(ready.architecture.as_str())),
            machine: Some(ready.machine.clone()),
            systemd: Some(ready.systemd.clone()),
            problem: None,
        },
        Err(problem) => WslSnapshot {
            ready: false,
            installed: listed,
            wsl_version: None,
            default: None,
            architecture: None,
            machine: None,
            systemd: None,
            problem: Some(problem.clone()),
        },
    }
}

/// What the task scheduler's half says.
pub open spec fn shows_task(
    snapshot: TaskSnapshot,
    name: Seq<char>,
    task: Option<RegisteredTask>,
) -> bool {
    &&& snapshot.name@ == name
    &&& match task {
        Some(found) => {
            &&& snapshot.registered
            &&& snapshot.product_owned == found.product_owned
            &&& snapshot.enabled == found.enabled
            &&& snapshot.running == found.running
            &&& snapshot.command == Some(found.command)
            &&& snapshot.arguments == Some(found.arguments)
        },
        None => {
            &&& !snapshot.registered && !snapshot.product_owned && !snapshot.enabled
            &&& !snapshot.running
            &&& snapshot.command is None && snapshot.arguments is None
        },
    }
}

/// The task scheduler's half of the document.
pub fn task_snapshot(name: &str, task: Option<RegisteredTask>) -> (snapshot: TaskSnapshot)
    ensures
        shows_task(snapshot, name@, task),
{
    match task {
        Some(found) => TaskSnapshot {
            name: name.to_owned(),
            registered: true,
            product_owned: found.product_owned,
            enabled: found.enabled,
            running: found.running,
            command: Some(found.command),
            arguments: Some(found.arguments),
        },
        None => TaskSnapshot {
            name: name.to_owned(),
            registered: false,
            product_owned: false,
            enabled: false,
            running: false,
            command: None,
            arguments: None,
        },
    }
}

/// What is said about Docker.
pub open spec fn docker_text(end: CommandEnd) -> Seq<char> {
    match end {
        CommandEnd::Ran { success, stdout, diagnostic, .. } => if success {
            "engine "@ + stdout@
        } else {
            "not usable here, so container jobs would fail while ordinary jobs run: "@
                + diagnostic@
        },
        CommandEnd::CannotRun(reason) => "could not be asked: "@ + reason@,
    }
}

/// Whether Docker can run a container. A diagnostic and never a gate.
pub fn docker_diagnostic(end: &CommandEnd) -> (diagnostic: Diagnostic)
    ensures
        diagnostic.name@ == "docker"@,
        diagnostic.available == (*end matches CommandEnd::Ran { success, .. } && success),
        diagnostic.detail@ == docker_text(*end),
{
    let (available, detail) = match end {
        CommandEnd::Ran { success, stdout, diagnostic, .. } => {
            if *success {
                let mut said = "engine ".to_owned();
                said.append(stdout.as_str());
                (true, said)
            } else {
                let mut said =
                    "not usable here, so container jobs would fail while ordinary jobs run: ".to_owned();
                said.append(diagnostic.as_str());
                (false, said)
            }
        },
        CommandEnd::CannotRun(reason) => {
            let mut said = "could not be asked: ".to_owned();
            said.append(reason.as_str());
            (false, said)
        },
    };
    Diagnostic { name: "docker".to_owned(), available, detail }
}

// ---------------------------------------------------------------------------
// Drift
// ---------------------------------------------------------------------------

/// One or no line.
pub open spec fn line_if(condition: bool, line: Seq<char>) -> Seq<Seq<char>> {
    if condition {
        seq![line]
    } else {
        Seq::empty()
    }
}

/// The line about the binary, if the record and the host disagree about it. A
/// question that was never asked is no disagreement.
pub open spec fn binary_drift(
    record: ProviderRecordSnapshot,
    wsl_ready: bool,
    binary: BinarySnapshot,
) -> Seq<Seq<char>> {
    match binary.version {
        Some(version) => line_if(
            version@ != record.installed_version@,
            "the record says runner-manager "@ + record.installed_version@
                + " was installed and the distribution reports "@ + version@,
        ),
        None => line_if(
            wsl_ready,
            "the record says runner-manager "@ + record.installed_version@
                + " was installed and the distribution has no readable binary at "@
                + binary.path@,
        ),
    }
}

/// Where a record and the host disagree.
pub open spec fn drift_lines(
    record: Option<ProviderRecordSnapshot>,
    wsl_ready: bool,
    binary: BinarySnapshot,
    task: TaskSnapshot,
    distribution: Seq<char>,
) -> Seq<Seq<char>> {
    match record {
        None => Seq::empty(),
        Some(kept) => line_if(
            kept.distribution@ != distribution,
            "the record names the distribution "@ + text::debug_text(kept.distribution@)
                + " and this asked about "@ + text::debug_text(distribution),
        ) + line_if(
            kept.task_name@ != task.name@,
            "the record names the task "@ + text::debug_text(kept.task_name@)
                + " and this build derives "@ + text::debug_text(task.name@),
        ) + line_if(
            !task.registered,
            "the record says this host is managed and no task named "@ + task.name@
                + " is registered"@,
        ) + binary_drift(kept, wsl_ready, binary),
    }
}

/// Adds one line to a list.
proof fn lemma_push_line(list: Seq<String>, line: String, lines: Seq<Seq<char>>)
    requires
        text::texts(list) == lines,
    ensures
        text::texts(list.push(line)) == lines + seq![line@],
{
    assert(text::texts(list.push(line)) =~= lines + seq![line@]);
}

/// Finds where the record and the host disagree. An absent record is no drift.
pub fn drift_between(
    record: &Option<ProviderRecordSnapshot>,
    wsl_ready: bool,
    binary: &BinarySnapshot,
    task: &TaskSnapshot,
    distribution: &str,
) -> (drift: Vec<String>)
    ensures
        text::texts(drift@) == drift_lines(*record, wsl_ready, *binary, *task, distribution@),
{
    let mut drift: Vec<String> = Vec::new();
    let kept = match record {
        None => {
            assert(text::texts(drift@) =~= Seq::<Seq<char>>::empty());
            return drift;
        },
        Some(kept) => kept,
    };
    let ghost mut lines: Seq<Seq<char>> = Seq::empty();
    assert(text::texts(drift@) =~= lines);
    if !same_text(kept.distribution.as_str(), distribution) {
        let mut line = "the record names the distribution ".to_owned();
        line.append(quoted(kept.distribution.as_str()).as_str());
        line.append(" and this asked about ");
        line.append(quoted(distribution).as_str());
        proof {
            lemma_push_line(drift@, line, lines);
            lines = lines + seq![line@];
        }
        drift.push(line);
    }
    let ghost first = lines;
    assert(first =~= line_if(
        kept.distribution@ != distribution@,
        "the record names the distribution "@ + text::debug_text(kept.distribution@)
            + " and this asked about "@ + text::debug_text(distribution@),
    ));
    if !same_text(kept.task_name.as_str(), task.name.as_str()) {
        let mut line = "the record names the task ".to_owned();
        line.append(quoted(kept.task_name.as_str()).as_str());
        line.append(" and this build derives ");
        line.append(quoted(task.name.as_str()).as_str());
        proof {
            lemma_push_line(drift@, line, lines);
            lines = lines + seq![line@];
        }
        drift.push(line);
    }
    let ghost second = lines;
    assert(second =~= first + line_if(
        kept.task_name@ != task.name@,
        "the record names the task "@ + text::debug_text(kept.task_name@)
            + " and this build derives "@ + text::debug_text(task.name@),
    ));
    if !task.registered {
        let mut line = "the record says this host is managed and no task named ".to_owned();
        line.append(task.name.as_str());
        line.append(" is registered");
        proof {
            lemma_push_line(drift@, line, lines);
            lines = lines + seq![line@];
        }
        drift.push(line);
    }
    let ghost third = lines;
    assert(third =~= second + line_if(
        !task.registered,
        "the record says this host is managed and no task named "@ + task.name@
            + " is registered"@,
    ));
    match &binary.version {
        Some(version) => {
            if !same_text(version.as_str(), kept.installed_version.as_str()) {
                let mut line = "the record says runner-manager ".to_owned();
                line.append(kept.installed_version.as_str());
                line.append(" was installed and the distribution reports ");
                line.append(version.as_str());
                proof {
                    lemma_push_line(drift@, line, lines);
                    lines = lines + seq![line@];
                }
                drift.push(line);
            }
        },
        None => {
            if wsl_ready {
                let mut line = "the record says runner-manager ".to_owned();
                line.append(kept.installed_version.as_str());
                line.append(" was installed and the distribution has no readable binary at ");
                line.append(binary.path.as_str());
                proof {
                    lemma_push_line(drift@, line, lines);
                    lines = lines + seq![line@];
                }
                drift.push(line);
            }
        },
    }
    assert(lines =~= third + binary_drift(*kept, wsl_ready, *binary));
    drift
}

// ---------------------------------------------------------------------------
// The probe
// ---------------------------------------------------------------------------

/// One question of a probe.
#[derive(Debug, Clone, Copy, PartialEq, Eq, Structural)]
pub enum ProbeQuestion {
    /// The preflight: installed, WSL2, root, architecture, systemd.
    Readiness,
    /// Whether the distribution is listed at all.
    Listed,
    /// The Linux binary's `status --json`.
    Status,
    /// `systemctl is-enabled`.
    Enabled,
    /// `systemctl is-active`.
    Active,
    /// `docker info`.
    Docker,
    /// The task scheduler.
    Task,
}

/// What is asked after the preflight answered, in order.
pub open spec fn questions_after(ready: bool) -> Seq<ProbeQuestion> {
    if ready {
        seq![
            ProbeQuestion::Status,
            ProbeQuestion::Enabled,
            ProbeQuestion::Active,
            ProbeQuestion::Docker,
            ProbeQuestion::Task,
        ]
    } else {
        seq![ProbeQuestion::Listed, ProbeQuestion::Task]
    }
}

/// What to ask after the preflight answered, in order. Nothing inside a
/// distribution that is not ready is asked.
pub fn probe_questions(ready: bool) -> (questions: Vec<ProbeQuestion>)
    ensures
        questions@ == questions_after(ready),
{
    if ready {
        vec![
            ProbeQuestion::Status,
            ProbeQuestion::Enabled,
            ProbeQuestion::Active,
            ProbeQuestion::Docker,
            ProbeQuestion::Task,
        ]
    } else {
        vec![ProbeQuestion::Listed, ProbeQuestion::Task]
    }
}

/// The command that asks a question inside the distribution, program first. A
/// question with none is asked of Windows.
pub open spec fn question_command(
    question: ProbeQuestion,
    linux_binary: Seq<char>,
    unit: Seq<char>,
) -> Option<Seq<Seq<char>>> {
    match question {
        ProbeQuestion::Status => Some(seq![linux_binary, "status"@, "--json"@]),
        ProbeQuestion::Enabled => Some(seq!["systemctl"@, "is-enabled"@, unit]),
        ProbeQuestion::Active => Some(seq!["systemctl"@, "is-active"@, unit]),
        ProbeQuestion::Docker => Some(
            seq!["docker"@, "info"@, "--format"@, "{{.ServerVersion}}"@],
        ),
        ProbeQuestion::Readiness | ProbeQuestion::Listed | ProbeQuestion::Task => None,
    }
}

/// The command that asks a question inside the distribution.
pub fn probe_command(question: ProbeQuestion, linux_binary: &str, unit: &str) -> (command: Option<
    Vec<String>,
>)
    ensures
        match command {
            Some(words) => question_command(question, linux_binary@, unit@) == Some(
                text::texts(words@),
            ),
            None => question_command(question, linux_binary@, unit@) is None,
        },
{
    let words = match question {
        ProbeQuestion::Status => vec![
            linux_binary.to_owned(),
            "status".to_owned(),
            "--json".to_owned(),
        ],
        ProbeQuestion::Enabled => vec![
            "systemctl".to_owned(),
            "is-enabled".to_owned(),
            unit.to_owned(),
        ],
        ProbeQuestion::Active => vec![
            "systemctl".to_owned(),
            "is-active".to_owned(),
            unit.to_owned(),
        ],
        ProbeQuestion::Docker => vec![
            "docker".to_owned(),
            "info".to_owned(),
            "--format".to_owned(),
            "{{.ServerVersion}}".to_owned(),
        ],
        ProbeQuestion::Readiness | ProbeQuestion::Listed | ProbeQuestion::Task => return None,
    };
    assert(text::texts(words@) =~= question_command(question, linux_binary@, unit@)->0);
    Some(words)
}

/// What was answered inside a distribution that is ready.
#[derive(Debug, Clone)]
pub struct InsideFacts {
    pub status: LinuxAnswer,
    pub enabled: Option<String>,
    pub active: Option<String>,
    pub docker: CommandEnd,
}

/// Everything a probe was answered.
#[derive(Debug)]
pub struct ProbeFacts {
    pub readiness: Result<Readiness, String>,
    /// Whether the distribution is listed, when it is not ready.
    pub listed: bool,
    /// What was answered inside, when it is ready.
    pub inside: Option<InsideFacts>,
    pub task: Option<RegisteredTask>,
}

/// Why a probe may not go on, when it may not: the name is not usable, the record
/// is not readable, or the task's name cannot be derived.
pub open spec fn probe_refusal(
    unusable: Option<WslError>,
    record: Option<WslError>,
    identity: Option<WslError>,
) -> Option<ErrorView> {
    match (unusable, record, identity) {
        (Some(source), _, _) => Some(wsl_error::reported(source)),
        (None, Some(source), _) => Some(wsl_error::reported(source)),
        (None, None, Some(source)) => Some(wsl_error::reported(source)),
        (None, None, None) => None,
    }
}

/// Decides whether a probe may ask anything. `unusable`, `record` and `identity`
/// are why a distribution cannot have this name, why the record could not be
/// read and why the task's name could not be derived, if so.
pub fn admit_probe(
    unusable: Option<WslError>,
    record: Option<WslError>,
    identity: Option<WslError>,
) -> (admitted: Result<(), CliError>)
    ensures
        match admitted {
            Ok(_) => probe_refusal(unusable, record, identity) is None,
            Err(error) => probe_refusal(unusable, record, identity) == Some(error@),
        },
{
    if let Some(source) = unusable {
        return Err(wsl_failure(&source));
    }
    if let Some(source) = record {
        return Err(wsl_failure(&source));
    }
    if let Some(source) = identity {
        return Err(wsl_failure(&source));
    }
    Ok(())
}

/// What is known of the binary.
pub open spec fn shows_binary(
    binary: BinarySnapshot,
    inside: Option<InsideFacts>,
    path: Seq<char>,
    distribution: Seq<char>,
    expected: Seq<char>,
) -> bool {
    &&& binary.path@ == path
    &&& match inside {
        Some(facts) => match facts.status {
            LinuxAnswer::Reported(status) => {
                &&& binary.installed
                &&& binary.version == Some(status.version)
                &&& binary.matches_expected == (status.version@ == expected)
                &&& binary.problem is None
            },
            LinuxAnswer::Unusable(why) => {
                &&& !binary.installed && !binary.matches_expected && binary.version is None
                &&& text::opt_text(binary.problem) == Some(
                    "there is no usable runner-manager at "@ + path + " inside "@ + distribution
                        + ": "@ + why@,
                )
            },
            LinuxAnswer::Unreadable(why) => {
                &&& !binary.installed && !binary.matches_expected && binary.version is None
                &&& binary.problem == Some(why)
            },
        },
        None => !binary.installed && !binary.matches_expected && binary.version is None
            && binary.problem is None,
    }
}

/// What is known of the credential.
pub open spec fn shows_credential(
    credential: CredentialSnapshot,
    inside: Option<InsideFacts>,
) -> bool {
    if inside is Some && inside->0.status is Reported {
        let status = inside->0.status->Reported_0;
        &&& credential.present == status.credential_present
        &&& credential.unreadable == status.credential_unreadable
        &&& credential.store_scope == status.store_scope
    } else {
        !credential.present && credential.unreadable is None && credential.store_scope is None
    }
}

/// What is known of the service. It is healthy when its unit is active and the
/// binary it runs is the expected one.
pub open spec fn shows_service(
    service: ServiceSnapshot,
    inside: Option<InsideFacts>,
    unit: Seq<char>,
    expected: Seq<char>,
) -> bool {
    &&& service.unit@ == unit
    &&& service.matches_expected == (text::opt_text(service.binary_version) == Some(expected))
    &&& match inside {
        Some(facts) => {
            &&& service.enabled == facts.enabled
            &&& service.active == facts.active
            &&& service.binary_version == (match facts.status {
                LinuxAnswer::Reported(status) => status.service_binary_version,
                _ => None,
            })
            &&& service.healthy == (text::opt_text(facts.active) == Some("active"@)
                && service.matches_expected)
        },
        None => service.enabled is None && service.active is None && service.binary_version is None
            && !service.healthy,
    }
}

/// Whether a host can accept jobs: every part is in place.
pub open spec fn all_in_place(document: WslStatusDocument) -> bool {
    &&& document.wsl.ready
    &&& document.binary.installed
    &&& document.binary.matches_expected
    &&& document.credential.present
    &&& document.service.healthy
    &&& document.lifecycle_task.registered
    &&& document.lifecycle_task.product_owned
    &&& document.lifecycle_task.enabled
}

/// What was answered inside, as far as the distribution is ready.
pub open spec fn inside_facts(facts: ProbeFacts) -> Option<InsideFacts> {
    if facts.readiness is Ok {
        facts.inside
    } else {
        None
    }
}

/// What the capacity is known to be.
pub open spec fn known_capacity(inside: Option<InsideFacts>) -> Option<u16> {
    match inside {
        Some(facts) => match facts.status {
            LinuxAnswer::Reported(status) => Some(status.capacity),
            _ => None,
        },
        None => None,
    }
}

/// Whether a document says exactly what the answers say.
pub open spec fn shows(
    document: WslStatusDocument,
    distribution: Seq<char>,
    linux_binary: Seq<char>,
    unit: Seq<char>,
    expected: Seq<char>,
    record: Option<ProviderRecordSnapshot>,
    task_name: Seq<char>,
    facts: ProbeFacts,
    now: Moment,
) -> bool {
    let inside = inside_facts(facts);
    &&& document.schema_version == WSL_STATUS_SCHEMA_VERSION
    &&& document.generated_at == now
    &&& document.distribution@ == distribution
    &&& document.expected_version@ == expected
    &&& document.provider_record == record
    &&& shows_wsl(document.wsl, facts.readiness, facts.listed)
    &&& shows_binary(document.binary, inside, linux_binary, distribution, expected)
    &&& shows_credential(document.credential, inside)
    &&& shows_service(document.service, inside, unit, expected)
    &&& shows_task(document.lifecycle_task, task_name, facts.task)
    &&& document.capacity == known_capacity(inside)
    &&& document.diagnostics@.len() == if inside is Some {
        1nat
    } else {
        0nat
    }
    &&& inside is Some ==> {
        &&& document.diagnostics@[0].name@ == "docker"@
        &&& document.diagnostics@[0].available == (inside->0.docker matches CommandEnd::Ran {
            success,
            ..
        } && success)
        &&& document.diagnostics@[0].detail@ == docker_text(inside->0.docker)
    }
    &&& text::texts(document.drift@) == drift_lines(
        record,
        document.wsl.ready,
        document.binary,
        document.lifecycle_task,
        distribution,
    )
    &&& document.availability@ == AVAILABILITY_NOTE@
    &&& document.healthy == all_in_place(document)
}

/// The parts of the document that are read inside the distribution.
fn inside_parts(
    inside: Option<InsideFacts>,
    linux_binary: &str,
    distribution: &str,
    unit: &str,
    expected: &str,
) -> (parts: (
    BinarySnapshot,
    CredentialSnapshot,
    ServiceSnapshot,
    Option<u16>,
    Vec<Diagnostic>,
))
    ensures
        shows_binary(parts.0, inside, linux_binary@, distribution@, expected@),
        shows_credential(parts.1, inside),
        shows_service(parts.2, inside, unit@, expected@),
        parts.3 == known_capacity(inside),
        parts.4@.len() == if inside is Some {
            1nat
        } else {
            0nat
        },
        inside is Some ==> {
            &&& parts.4@[0].name@ == "docker"@
            &&& parts.4@[0].available == (inside->0.docker matches CommandEnd::Ran { success, .. }
                && success)
            &&& parts.4@[0].detail@ == docker_text(inside->0.docker)
        },
{
    let mut binary = BinarySnapshot {
        path: linux_binary.to_owned(),
        installed: false,
        version: None,
        matches_expected: false,
        problem: None,
    };
    let mut credential = CredentialSnapshot { present: false, unreadable: None, store_scope: None };
    let mut service = ServiceSnapshot {
        unit: unit.to_owned(),
        enabled: None,
        active: None,
        binary_version: None,
        matches_expected: false,
        healthy: false,
    };
    let mut capacity: Option<u16> = None;
    let mut diagnostics: Vec<Diagnostic> = Vec::new();
    if let Some(facts) = inside {
        match facts.status {
            LinuxAnswer::Reported(status) => {
                binary.installed = true;
                binary.matches_expected = same_text(status.version.as_str(), expected);
                binary.version = Some(status.version);
                if let Some(version) = &status.service_binary_version {
                    service.matches_expected = same_text(version.as_str(), expected);
                }
                service.binary_version = status.service_binary_version;
                credential.present = status.credential_present;
                credential.unreadable = status.credential_unreadable;
                credential.store_scope = status.store_scope;
                capacity = Some(status.capacity);
            },
            LinuxAnswer::Unusable(why) => {
                let mut problem = "there is no usable runner-manager at ".to_owned();
                problem.append(linux_binary);
                problem.append(" inside ");
                problem.append(distribution);
                problem.append(": ");
                problem.append(why.as_str());
                binary.problem = Some(problem);
            },
            LinuxAnswer::Unreadable(why) => {
                binary.problem = Some(why);
            },
        }
        let mut is_active = false;
        if let Some(word) = &facts.active {
            is_active = same_text(word.as_str(), "active");
        }
        service.healthy = is_active && service.matches_expected;
        service.enabled = facts.enabled;
        service.active = facts.active;
        diagnostics.push(docker_diagnostic(&facts.docker));
    }
    (binary, credential, service, capacity, diagnostics)
}

/// Assembles what a probe was answered into a document. A distribution that is
/// not ready, or has nothing in it, makes a document that says so.
pub fn probe(
    distribution: &str,
    linux_binary: &str,
    unit: &str,
    expected_version: &str,
    record: Option<ProviderRecordSnapshot>,
    task_name: &str,
    facts: ProbeFacts,
    now: Moment,
) -> (document: WslStatusDocument)
    ensures
        shows(
            document,
            distribution@,
            linux_binary@,
            unit@,
            expected_version@,
            record,
            task_name@,
            facts,
            now,
        ),
{
    let wsl = wsl_snapshot(&facts.readiness, facts.listed);
    let inside = if wsl.ready {
        facts.inside
    } else {
        None
    };
    let (binary, credential, service, capacity, diagnostics) = inside_parts(
        inside,
        linux_binary,
        distribution,
        unit,
        expected_version,
    );
    let lifecycle_task = task_snapshot(task_name, facts.task);
    let healthy = wsl.ready && binary.installed && binary.matches_expected && credential.present
        && service.healthy && lifecycle_task.registered && lifecycle_task.product_owned
        && lifecycle_task.enabled;
    let drift = drift_between(&record, wsl.ready, &binary, &lifecycle_task, distribution);
    WslStatusDocument {
        schema_version: WSL_STATUS_SCHEMA_VERSION,
        generated_at: now,
        distribution: distribution.to_owned(),
        healthy,
        expected_version: expected_version.to_owned(),
        provider_record: record,
        wsl,
        binary,
        credential,
        service,
        lifecycle_task,
        capacity,
        diagnostics,
        drift,
        availability: AVAILABILITY_NOTE,
    }
}

// ---------------------------------------------------------------------------
// Laws
// ---------------------------------------------------------------------------

/// Whether a version is this text.
pub open spec fn is_text(value: Option<String>, wanted: Seq<char>) -> bool {
    value matches Some(found) && found@ == wanted
}

/// A host is healthy exactly where everything that a job needs was answered so:
/// the distribution is ready, its binary reports the expected version and a
/// credential, the unit is active and runs the expected version, and the
/// lifecycle task is registered, this product's and enabled.
pub proof fn law_a_healthy_host_has_everything_it_needs(
    document: WslStatusDocument,
    distribution: Seq<char>,
    linux_binary: Seq<char>,
    unit: Seq<char>,
    expected: Seq<char>,
    record: Option<ProviderRecordSnapshot>,
    task_name: Seq<char>,
    facts: ProbeFacts,
    now: Moment,
)
    requires
        shows(
            document,
            distribution,
            linux_binary,
            unit,
            expected,
            record,
            task_name,
            facts,
            now,
        ),
    ensures
        document.healthy <==> {
            &&& facts.readiness is Ok
            &&& facts.task matches Some(task) && task.product_owned && task.enabled
            &&& facts.inside matches Some(inside) && is_text(inside.active, "active"@) && (
            inside.status matches LinuxAnswer::Reported(status) && status.version@ == expected
                && status.credential_present && is_text(status.service_binary_version, expected))
        },
        document.healthy ==> document.wsl.ready,
        document.healthy ==> document.binary.installed && document.binary.matches_expected,
        document.healthy ==> document.credential.present,
        document.healthy ==> document.service.healthy,
        document.healthy ==> document.lifecycle_task.registered,
        document.healthy ==> document.lifecycle_task.product_owned,
        document.healthy ==> document.lifecycle_task.enabled,
        document.wsl.ready && document.binary.installed && document.binary.matches_expected
            && document.credential.present && document.service.healthy
            && document.lifecycle_task.registered && document.lifecycle_task.product_owned
            && document.lifecycle_task.enabled ==> document.healthy,
{
}

/// The document repeats what was answered: of the distribution, of the task
/// scheduler, and of the binary, the credential and the service inside; what was
/// not asked or not answered is absent and never made up.
pub proof fn law_the_document_repeats_the_answers(
    document: WslStatusDocument,
    distribution: Seq<char>,
    linux_binary: Seq<char>,
    unit: Seq<char>,
    expected: Seq<char>,
    record: Option<ProviderRecordSnapshot>,
    task_name: Seq<char>,
    facts: ProbeFacts,
    now: Moment,
)
    requires
        shows(
            document,
            distribution,
            linux_binary,
            unit,
            expected,
            record,
            task_name,
            facts,
            now,
        ),
    ensures
        document.schema_version == 1 && document.generated_at == now && document.distribution@
            == distribution && document.expected_version@ == expected && document.provider_record
            == record && document.binary.path@ == linux_binary && document.service.unit@ == unit
            && document.lifecycle_task.name@ == task_name,
        document.wsl.ready <==> facts.readiness is Ok,
        facts.readiness matches Ok(ready) ==> document.wsl.installed && document.wsl.wsl_version
            == Some(ready.wsl_version) && document.wsl.default == Some(ready.default) && is_text(
            document.wsl.machine,
            ready.machine@,
        ) && is_text(document.wsl.systemd, ready.systemd@) && document.wsl.problem is None,
        facts.readiness matches Err(problem) ==> document.wsl.installed == facts.listed && is_text(
            document.wsl.problem,
            problem@,
        ) && document.wsl.wsl_version is None && !document.binary.installed
            && document.binary.version is None && !document.credential.present
            && document.service.active is None && document.service.enabled is None
            && document.capacity is None && document.diagnostics@.len() == 0,
        document.lifecycle_task.registered <==> facts.task is Some,
        facts.task matches Some(task) ==> document.lifecycle_task.product_owned
            == task.product_owned && document.lifecycle_task.enabled == task.enabled
            && document.lifecycle_task.running == task.running && document.lifecycle_task.command
            == Some(task.command) && document.lifecycle_task.arguments == Some(task.arguments),
        facts.task is None ==> !document.lifecycle_task.product_owned
            && !document.lifecycle_task.enabled && !document.lifecycle_task.running,
        facts.readiness is Ok ==> (facts.inside matches Some(inside) ==> {
            &&& document.service.active == inside.active
            &&& document.service.enabled == inside.enabled
            &&& document.binary.installed <==> inside.status is Reported
            &&& inside.status matches LinuxAnswer::Reported(status) ==> {
                &&& document.binary.version == Some(status.version)
                &&& document.binary.matches_expected <==> status.version@ == expected
                &&& document.binary.problem is None
                &&& document.credential.present == status.credential_present
                &&& document.credential.unreadable == status.credential_unreadable
                &&& document.credential.store_scope == status.store_scope
                &&& document.capacity == Some(status.capacity)
                &&& document.service.binary_version == status.service_binary_version
                &&& document.service.matches_expected <==> is_text(
                    status.service_binary_version,
                    expected,
                )
            }
            &&& inside.status matches LinuxAnswer::Unreadable(why) ==> document.binary.problem
                == Some(why)
            &&& inside.status matches LinuxAnswer::Unusable(why) ==> is_text(
                document.binary.problem,
                "there is no usable runner-manager at "@ + linux_binary + " inside "@ + distribution
                    + ": "@ + why@,
            )
            &&& !(inside.status is Reported) ==> !document.credential.present
                && document.binary.version is None && document.capacity is None
                && document.service.binary_version is None && !document.service.healthy
            &&& document.service.healthy <==> is_text(inside.active, "active"@)
                && document.service.matches_expected
            &&& document.diagnostics@.len() == 1 && document.diagnostics@[0].name@ == "docker"@
            &&& inside.docker matches CommandEnd::Ran { success, stdout, diagnostic, .. }
                ==> document.diagnostics@[0].available == success && (success
                ==> document.diagnostics@[0].detail@ == "engine "@ + stdout@) && (!success
                ==> diagnostic@.is_suffix_of(document.diagnostics@[0].detail@))
            &&& inside.docker matches CommandEnd::CannotRun(reason)
                ==> !document.diagnostics@[0].available && document.diagnostics@[0].detail@
                == "could not be asked: "@ + reason@
        }),
{
    if let Some(inside) = facts.inside {
        if let CommandEnd::Ran { diagnostic, .. } = inside.docker {
            let head = "not usable here, so container jobs would fail while ordinary jobs run: "@;
            assert(diagnostic@.is_suffix_of(head + diagnostic@));
        }
    }
}

/// A record and a host disagree exactly where the record names another
/// distribution or another task, where no task is registered, or where the
/// binary that is there is not the one recorded; an absent binary is a
/// disagreement only where it was asked for. Each disagreement has its line.
pub proof fn law_drift_is_what_the_record_got_wrong(
    record: Option<ProviderRecordSnapshot>,
    wsl_ready: bool,
    binary: BinarySnapshot,
    task: TaskSnapshot,
    distribution: Seq<char>,
)
    ensures
        ({
            let lines = drift_lines(record, wsl_ready, binary, task, distribution);
            &&& record is None ==> lines.len() == 0
            &&& record matches Some(kept) ==> {
                let elsewhere = kept.distribution@ != distribution;
                let renamed = kept.task_name@ != task.name@;
                let other = match binary.version {
                    Some(version) => version@ != kept.installed_version@,
                    None => wsl_ready,
                };
                let one = |wrong: bool|
                    if wrong {
                        1int
                    } else {
                        0int
                    };
                lines.len() == one(elsewhere) + one(renamed) + one(!task.registered) + one(other)
            }
        }),
{
}

/// Nothing inside a distribution is asked before it is ready; the task scheduler
/// is asked either way, and every question inside has its command.
pub proof fn law_only_a_ready_distribution_is_asked_inside(
    question: ProbeQuestion,
    linux_binary: Seq<char>,
    unit: Seq<char>,
)
    ensures
        questions_after(false).contains(question) ==> question_command(
            question,
            linux_binary,
            unit,
        ) is None,
        questions_after(true).contains(ProbeQuestion::Task) && questions_after(false).contains(
            ProbeQuestion::Task,
        ) && questions_after(false).contains(ProbeQuestion::Listed),
        questions_after(true).contains(question) <==> question == ProbeQuestion::Task
            || question_command(question, linux_binary, unit) is Some,
        question_command(ProbeQuestion::Status, linux_binary, unit) == Some(
            seq![linux_binary, "status"@, "--json"@],
        ),
        question_command(ProbeQuestion::Enabled, linux_binary, unit) == Some(
            seq!["systemctl"@, "is-enabled"@, unit],
        ),
        question_command(ProbeQuestion::Active, linux_binary, unit) == Some(
            seq!["systemctl"@, "is-active"@, unit],
        ),
{
    let asked = questions_after(true);
    assert(asked[0] == ProbeQuestion::Status && asked[1] == ProbeQuestion::Enabled && asked[2]
        == ProbeQuestion::Active && asked[3] == ProbeQuestion::Docker && asked[4]
        == ProbeQuestion::Task);
    assert(questions_after(false)[0] == ProbeQuestion::Listed && questions_after(false)[1]
        == ProbeQuestion::Task);
}

/// The first thing that is wrong is what a probe is refused for, and a probe with
/// nothing wrong is not refused.
pub proof fn law_a_probe_is_refused_for_the_first_thing_wrong(
    unusable: Option<WslError>,
    record: Option<WslError>,
    identity: Option<WslError>,
)
    ensures
        probe_refusal(unusable, record, identity) is None <==> unusable is None && record is None
            && identity is None,
        unusable matches Some(source) ==> probe_refusal(unusable, record, identity) == Some(
            wsl_error::reported(source),
        ),
        unusable is None ==> (record matches Some(source) ==> probe_refusal(
            unusable,
            record,
            identity,
        ) == Some(wsl_error::reported(source))),
        unusable is None && record is None ==> (identity matches Some(source) ==> probe_refusal(
            unusable,
            record,
            identity,
        ) == Some(wsl_error::reported(source))),
{
}

/// The word of `systemctl` is what it printed, or else what it complained of; a
/// command that could not be run says nothing.
pub proof fn law_a_word_is_what_was_printed(end: CommandEnd)
    ensures
        end is CannotRun ==> word_of(end) is None,
        end matches CommandEnd::Ran { stdout, stderr, .. } ==> (stdout@.len() > 0 ==> word_of(end)
            == Some(stdout)) && (stdout@.len() == 0 && stderr@.len() > 0 ==> word_of(end) == Some(
            stderr,
        )) && (stdout@.len() == 0 && stderr@.len() == 0 ==> word_of(end) is None),
{
}

/// A process is named by a positive number of 32 bits and by nothing else, and a
/// number that was written out is the process it names.
pub proof fn law_a_process_is_a_positive_number(pid: u64)
    ensures
        main_pid_of(None) is None,
        main_pid_of(Some(text::decimal(pid as nat))) == (if 0 < pid && pid <= u32::MAX {
            Some(pid)
        } else {
            None
        }),
{
    text::lemma_decimal_reads_back(pid as nat);
}

/// A version is reported only by a run that succeeded, and is its last word.
pub proof fn law_a_version_is_the_last_word_of_a_success(end: CommandEnd)
    ensures
        version_reported(end) is Some <==> (end matches CommandEnd::Ran { success, stdout, .. }
            && success && text::words(stdout@).len() > 0),
        version_reported(end) matches Some(version) ==> (end matches CommandEnd::Ran {
            stdout,
            ..
        } && version == text::words(stdout@)[text::words(stdout@).len() - 1]),
{
}

/// A distribution that is ready is shown with all that is known of it and with no
/// problem. Of one that is not, only the problem is shown, and whether there is
/// such a distribution at all.
pub proof fn law_a_distribution_is_shown_or_its_problem_is(
    wsl: WslSnapshot,
    readiness: Result<Readiness, String>,
    listed: bool,
)
    requires
        shows_wsl(wsl, readiness, listed),
    ensures
        wsl.ready <==> readiness is Ok,
        wsl.problem is Some <==> readiness is Err,
        wsl.installed <==> readiness is Ok || listed,
        wsl.ready == wsl.wsl_version is Some && wsl.ready == wsl.default is Some && wsl.ready
            == wsl.architecture is Some,
        wsl.ready == wsl.machine is Some && wsl.ready == wsl.systemd is Some,
        readiness matches Ok(found) ==> wsl.wsl_version == Some(found.wsl_version) && wsl.default
            == Some(found.default) && (wsl.machine matches Some(machine) && machine@
            == found.machine@) && (wsl.systemd matches Some(systemd) && systemd@
            == found.systemd@),
        readiness matches Err(reason) ==> (wsl.problem matches Some(problem) && problem@
            == reason@),
{
}

} // verus!
