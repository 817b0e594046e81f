//! Managed distributions, over scripted controls: what an install, a status, a
//! list, a detach and a hold do and say.

#![allow(dead_code, unused_imports)]

use runner_manager::hold::{
    dispatch_wsl_host, hold, systemctl_arguments, HoldEvent, HoldStep, HoldStop, SYSTEMCTL,
};
use runner_manager::provision::{
    in_stage, stage_prefix, supports_cooperative_service_handover,
};
use runner_manager::proxy::{
    cannot_start, exit_code_of, forwarded_arguments, forwarded_positions,
    refuse_a_command_that_cannot_be_proxied, run_on_selected_host, CommandFamily, HostSelector,
    ProxyPlan, Route,
};
use runner_manager::watchdog::{
    age_of, begin, expire_circuit, generation_now, github_inventory, observe, pause_seconds,
    recover_named, update_zero_heartbeats, Heartbeat, HostFacts, InventoryPage, ListedRunner,
    RecoveryDecision, RecoveryPhase, RestartStep, Tracker, WatchEvent, WatchStep,
};
use runner_manager::wsl_commands::{brokered_login, LoginEvent, LoginStep};
use std::collections::BTreeMap;
use std::fmt;
use std::path::{Path, PathBuf};
use std::sync::{Arc, Mutex};
use std::time::Duration;

use runner_manager::failure::{CliError, Failure};
use runner_manager::provision::{InstallEvent, InstallStep, Progress, Provisioner as Plan, Stage};
use runner_manager::proxy::{exec_arguments, DEFAULT_LINUX_DESTINATION};
use runner_manager::wsl_commands as commands;
use runner_manager::wsl_commands::{
    DetachEvent, DetachStep, Detaching, ListedDistribution, RecordRead, SecretSinkError, StartAt,
    WslSecretSink,
};
use runner_manager::wsl_error::{wsl_failure, WslError, WslErrorKind};
use runner_manager::wsl_report as report;
use runner_manager::wsl_report::{refuse_a_partial_host, InstallOutcome};
use runner_manager::wsl_status::{
    admit_probe, linux_status, main_pid, probe as read_host, probe_command, probe_questions,
    process_executable,
    reported_version, systemctl_word, CommandEnd, InsideFacts, LinuxAnswer, LinuxStatus, Moment,
    ProbeFacts, ProbeQuestion, ProviderRecordSnapshot, Readiness, RegisteredTask,
    WslStatusDocument, AVAILABILITY_NOTE, PRODUCT_MARKER, WSL_STATUS_SCHEMA_VERSION,
};

// ---------------------------------------------------------------------------
// Failures that can be printed
// ---------------------------------------------------------------------------

/// A failure, as a test reads it.
#[derive(Debug)]
struct Refusal(CliError);

impl Refusal {
    fn new(class: Failure, message: impl Into<String>) -> Self {
        Self(CliError::new(class, message.into()))
    }

    fn class(&self) -> Failure {
        self.0.class()
    }

    fn remedy(&self) -> Option<&str> {
        self.0.remedy()
    }

    fn render(&self, out: &mut Vec<u8>) {
        out.extend_from_slice(format!("error: {}\n", self.0.message()).as_bytes());
        if let Some(remedy) = self.0.remedy() {
            out.extend_from_slice(format!("  try: {remedy}\n").as_bytes());
        }
    }
}

impl fmt::Display for Refusal {
    fn fmt(&self, f: &mut fmt::Formatter<'_>) -> fmt::Result {
        f.write_str(self.0.message())
    }
}

impl From<CliError> for Refusal {
    fn from(error: CliError) -> Self {
        Self(error)
    }
}

fn wsl_error(kind: WslErrorKind, message: impl Into<String>) -> WslError {
    WslError {
        kind,
        message: message.into(),
    }
}

/// The platform's verdict on a name: why it cannot stand on a command line.
fn validate_distribution_name(name: &str) -> Result<(), WslError> {
    let problem = if name.is_empty() {
        "is empty"
    } else if name.starts_with('-') {
        "starts with `-`, so it would be read as an option"
    } else if name.trim() != name {
        "starts or ends with whitespace"
    } else if name.contains(char::is_control) {
        "holds a control character"
    } else {
        return Ok(());
    };
    Err(wsl_error(
        WslErrorKind::InvalidName,
        format!("the distribution name {name:?} {problem}"),
    ))
}

// ---------------------------------------------------------------------------
// Commands that a script answers
// ---------------------------------------------------------------------------

/// How a scripted command ended.
#[derive(Debug, Clone, PartialEq, Eq)]
struct CommandOutput {
    code: i32,
    stdout: Vec<u8>,
    stderr: Vec<u8>,
}

impl CommandOutput {
    fn exited(code: i32, stdout: impl Into<String>, stderr: impl Into<String>) -> Self {
        Self {
            code,
            stdout: stdout.into().into_bytes(),
            stderr: stderr.into().into_bytes(),
        }
    }

    fn success(&self) -> bool {
        self.code == 0
    }

    fn stdout_text(&self) -> String {
        String::from_utf8_lossy(&self.stdout).trim().to_string()
    }

    fn stderr_text(&self) -> String {
        String::from_utf8_lossy(&self.stderr).trim().to_string()
    }

    /// The child's own words about a failure.
    fn diagnostic(&self) -> String {
        let complaint = self.stderr_text();
        if !complaint.is_empty() {
            return complaint;
        }
        let said = self.stdout_text();
        if !said.is_empty() {
            return said;
        }
        format!("it exited {} and said nothing", self.code)
    }
}

fn ok(stdout: &str) -> CommandOutput {
    CommandOutput::exited(0, stdout, "")
}

fn refused(stderr: &str) -> CommandOutput {
    CommandOutput::exited(1, "", stderr)
}

/// One command to be run.
#[derive(Debug, Clone)]
struct CommandRequest {
    program: PathBuf,
    arguments: Vec<String>,
    stdin: Vec<u8>,
    timeout: Duration,
}

impl CommandRequest {
    fn new(program: impl AsRef<Path>, arguments: Vec<String>) -> Self {
        Self {
            program: program.as_ref().to_path_buf(),
            arguments,
            stdin: Vec::new(),
            timeout: Duration::from_secs(60),
        }
    }

    fn program_name(&self) -> String {
        self.program
            .file_name()
            .map(|name| name.to_string_lossy().into_owned())
            .unwrap_or_default()
    }

    fn line(&self) -> String {
        let mut line = self.program_name();
        for argument in &self.arguments {
            line.push(' ');
            line.push_str(argument);
        }
        line
    }
}

/// One command that was run.
#[derive(Debug, Clone)]
struct RecordedRequest {
    arguments: Vec<String>,
    stdin: Vec<u8>,
    timeout: Duration,
    line: String,
}

impl RecordedRequest {
    fn command_line(&self) -> String {
        self.line.clone()
    }
}

trait CommandRunner: fmt::Debug {
    fn run(&self, request: &CommandRequest) -> Result<CommandOutput, WslError>;
}

/// Answers from the first rule whose needle stands in the command line: each of
/// its responses once, and the last from then on.
#[derive(Debug)]
struct ScriptedRunner {
    rules: Vec<(String, Vec<CommandOutput>, Mutex<usize>)>,
    fallback: CommandOutput,
    recorded: Mutex<Vec<RecordedRequest>>,
}

impl ScriptedRunner {
    fn new() -> Self {
        Self {
            rules: Vec::new(),
            fallback: ok(""),
            recorded: Mutex::new(Vec::new()),
        }
    }

    fn always(self, needle: &str, response: CommandOutput) -> Self {
        self.sequence(needle, vec![response])
    }

    fn sequence(mut self, needle: &str, responses: Vec<CommandOutput>) -> Self {
        self.rules
            .push((needle.to_string(), responses, Mutex::new(0)));
        self
    }

    fn otherwise(mut self, response: CommandOutput) -> Self {
        self.fallback = response;
        self
    }

    fn recorded(&self) -> Vec<RecordedRequest> {
        self.recorded.lock().expect("no test panics here").clone()
    }

    fn piped_input(&self) -> Vec<u8> {
        self.recorded()
            .into_iter()
            .flat_map(|request| request.stdin)
            .collect()
    }
}

impl CommandRunner for ScriptedRunner {
    fn run(&self, request: &CommandRequest) -> Result<CommandOutput, WslError> {
        let line = request.line();
        self.recorded
            .lock()
            .expect("no test panics here")
            .push(RecordedRequest {
                arguments: request.arguments.clone(),
                stdin: request.stdin.clone(),
                timeout: request.timeout,
                line: line.clone(),
            });
        for (needle, responses, used) in &self.rules {
            if line.contains(needle.as_str()) {
                let mut used = used.lock().expect("no test panics here");
                let index = (*used).min(responses.len() - 1);
                *used += 1;
                return Ok(responses[index].clone());
            }
        }
        Ok(self.fallback.clone())
    }
}

// ---------------------------------------------------------------------------
// The workstation's controls
// ---------------------------------------------------------------------------

/// WSL and Task Scheduler, as commands.
#[derive(Debug)]
struct WslHost {
    runner: Box<dyn CommandRunner>,
}

/// One row of the distribution table.
struct Entry {
    name: String,
    state: String,
    wsl_version: u8,
    default: bool,
}

fn spoken(words: &[&str]) -> Vec<String> {
    words.iter().map(|word| word.to_string()).collect()
}

impl WslHost {
    fn over(runner: Box<dyn CommandRunner>) -> Self {
        Self { runner }
    }

    fn wsl(
        &self,
        distribution: &str,
        command: &[String],
        stdin: Vec<u8>,
        timeout: Duration,
    ) -> Result<CommandOutput, WslError> {
        validate_distribution_name(distribution)?;
        let mut request = CommandRequest::new(
            "wsl.exe",
            exec_arguments(distribution, &command[0], command[1..].to_vec()),
        );
        request.stdin = stdin;
        request.timeout = timeout;
        self.runner.run(&request)
    }

    fn exec(&self, distribution: &str, command: &[&str]) -> Result<CommandOutput, WslError> {
        self.wsl(
            distribution,
            &spoken(command),
            Vec::new(),
            Duration::from_secs(60),
        )
    }

    fn exec_ok(&self, distribution: &str, command: &[String], stdin: Vec<u8>) -> Result<(), WslError> {
        let output = self.wsl(distribution, command, stdin, Duration::from_secs(180))?;
        if output.success() {
            Ok(())
        } else {
            Err(wsl_error(
                WslErrorKind::CommandFailed,
                format!("`{}` failed: {}", command.join(" "), output.diagnostic()),
            ))
        }
    }

    /// How a command ended, as the library reads it.
    fn end(&self, distribution: &str, command: &[String]) -> CommandEnd {
        let timeout = if command[0] == "docker" { 15 } else { 60 };
        end_of(self.wsl(
            distribution,
            command,
            Vec::new(),
            Duration::from_secs(timeout),
        ))
    }

    fn list(&self) -> Result<Vec<Entry>, WslError> {
        let output = self
            .runner
            .run(&CommandRequest::new("wsl.exe", spoken(&["--list", "--verbose"])))?;
        let mut entries = Vec::new();
        for line in String::from_utf8_lossy(&output.stdout).lines() {
            let (default, rest) = match line.trim_start().strip_prefix('*') {
                Some(rest) => (true, rest),
                None => (false, line),
            };
            let mut words: Vec<&str> = rest.split_whitespace().collect();
            let Some(Ok(wsl_version)) = words.pop().map(str::parse::<u8>) else {
                continue;
            };
            let state = words.pop().unwrap_or_default().to_string();
            entries.push(Entry {
                name: words.join(" "),
                state,
                wsl_version,
                default,
            });
        }
        Ok(entries)
    }

    /// The preflight: every question, in order, up to the first that refuses.
    fn probe_readiness(&self, distribution: &str) -> Result<Readiness, WslError> {
        validate_distribution_name(distribution)?;
        let entries = self.list()?;
        let Some(entry) = entries.iter().find(|entry| entry.name == distribution) else {
            return Err(wsl_error(
                WslErrorKind::NotInstalled,
                format!("no distribution named {distribution} is installed"),
            ));
        };
        if entry.wsl_version != 2 {
            return Err(wsl_error(
                WslErrorKind::NotWsl2,
                format!("{distribution} is WSL{}; WSL2 only", entry.wsl_version),
            ));
        }
        if self.exec(distribution, &["id", "-u"])?.stdout_text() != "0" {
            return Err(wsl_error(
                WslErrorKind::NoRootAccess,
                format!("{distribution} does not run commands as root"),
            ));
        }
        let machine = self.exec(distribution, &["uname", "-m"])?.stdout_text();
        let architecture = match machine.as_str() {
            "x86_64" => "X86_64",
            "aarch64" => "Aarch64",
            other => {
                return Err(wsl_error(
                    WslErrorKind::UnsupportedArchitecture,
                    format!("{distribution} is {other}, which no release is published for"),
                ));
            }
        };
        let systemd = self.exec(distribution, &["systemctl", "is-system-running"])?;
        let word = systemd.stdout_text();
        if !matches!(word.as_str(), "running" | "degraded" | "starting") {
            return Err(wsl_error(
                WslErrorKind::SystemdUnavailable,
                format!("{distribution} does not run systemd: {}", systemd.diagnostic()),
            ));
        }
        Ok(Readiness {
            name: distribution.to_string(),
            wsl_version: entry.wsl_version,
            default: entry.default,
            architecture: architecture.to_string(),
            machine,
            systemd: word,
        })
    }

    fn schtasks(&self, arguments: &[&str], document: Vec<u8>) -> Result<CommandOutput, WslError> {
        let mut request = CommandRequest::new("schtasks.exe", spoken(arguments));
        request.stdin = document;
        self.runner.run(&request)
    }

    fn query_task(&self, name: &str) -> Result<Option<RegisteredTask>, WslError> {
        let exported = self.schtasks(&["/Query", "/TN", name, "/XML", "ONE"], Vec::new())?;
        if !exported.success() {
            return Ok(None);
        }
        let listed = self.schtasks(&["/Query", "/TN", name, "/FO", "CSV", "/NH"], Vec::new())?;
        let document = exported.stdout_text();
        Ok(Some(RegisteredTask {
            product_owned: document.contains(PRODUCT_MARKER),
            enabled: !document.contains("<Enabled>false</Enabled>"),
            running: listed.stdout_text().contains("Running"),
            command: element(&document, "Command"),
            arguments: element(&document, "Arguments"),
        }))
    }

    fn register_task(&self, distribution: &str) -> Result<(), WslError> {
        let name = task_name(distribution);
        match self.query_task(&name)? {
            Some(task) if !task.product_owned => {
                return Err(wsl_error(WslErrorKind::ForeignTask, name));
            }
            Some(_) => {}
            None => {
                let listed =
                    self.schtasks(&["/Query", "/TN", &name, "/FO", "CSV", "/NH"], Vec::new())?;
                if listed.success() {
                    return Err(wsl_error(WslErrorKind::ForeignTask, name));
                }
            }
        }
        let created = self.schtasks(
            &["/Create", "/TN", &name, "/XML", "task.xml", "/F"],
            our_task_xml(distribution).into_bytes(),
        )?;
        if created.success() {
            Ok(())
        } else {
            Err(wsl_error(WslErrorKind::TaskControl, created.diagnostic()))
        }
    }

    fn start_task(&self, distribution: &str) -> Result<(), WslError> {
        let started = self.schtasks(&["/Run", "/TN", &task_name(distribution)], Vec::new())?;
        if started.success() {
            Ok(())
        } else {
            Err(wsl_error(WslErrorKind::TaskControl, started.diagnostic()))
        }
    }

    fn stop_task(&self, distribution: &str) -> Result<bool, WslError> {
        let name = task_name(distribution);
        match self.query_task(&name)? {
            None => Err(wsl_error(WslErrorKind::NoSuchTask, name)),
            Some(task) if !task.product_owned => Err(wsl_error(WslErrorKind::ForeignTask, name)),
            Some(task) => {
                if task.running {
                    self.schtasks(&["/End", "/TN", &name], Vec::new())?;
                }
                Ok(task.running)
            }
        }
    }

    fn remove_task(&self, distribution: &str) -> Result<bool, WslError> {
        let name = task_name(distribution);
        match self.query_task(&name)? {
            None => Ok(false),
            Some(task) if !task.product_owned => Err(wsl_error(WslErrorKind::ForeignTask, name)),
            Some(_) => {
                self.schtasks(&["/Delete", "/TN", &name, "/F"], Vec::new())?;
                Ok(true)
            }
        }
    }

    /// Puts a verified archive's binary in place, by way of a directory of its
    /// own that is always removed again.
    fn install_binary(
        &self,
        distribution: &str,
        archive: &[u8],
        digest: &str,
        version: &str,
    ) -> Result<(), WslError> {
        let actual = runner_manager::archive::sha256_of(&archive.to_vec());
        if actual != digest {
            return Err(wsl_error(
                WslErrorKind::DigestMismatch,
                format!("the archive's digest is {actual} and {digest} was published"),
            ));
        }
        let staging = "/usr/local/bin/.runner-manager-install-0a1b2c3d";
        let member = format!("runner-manager-{version}-{TRIPLE}/runner-manager");
        let staged = format!("{staging}/{member}");
        self.exec_ok(
            distribution,
            &spoken(&["mkdir", "-m", "0700", staging]),
            Vec::new(),
        )?;
        let placed = self.place_binary(distribution, archive, version, staging, &member, &staged);
        self.exec_ok(distribution, &spoken(&["rm", "-rf", staging]), Vec::new())?;
        placed
    }

    fn place_binary(
        &self,
        distribution: &str,
        archive: &[u8],
        version: &str,
        staging: &str,
        member: &str,
        staged: &str,
    ) -> Result<(), WslError> {
        let unpack = spoken(&["tar", "-xzf", "-", "-C", staging, "--no-same-owner", member]);
        self.exec_ok(distribution, &unpack, archive.to_vec())?;
        self.exec_ok(distribution, &spoken(&["chmod", "0755", staged]), Vec::new())?;
        let reported = reported_version(&self.end(distribution, &spoken(&[staged, "--version"])));
        if reported.as_deref() != Some(version) {
            return Err(wsl_error(
                WslErrorKind::VersionMismatch,
                format!("the staged binary reports {reported:?}"),
            ));
        }
        self.exec_ok(
            distribution,
            &spoken(&["mv", "-T", staged, DEFAULT_LINUX_DESTINATION]),
            Vec::new(),
        )
    }
}

fn end_of(ran: Result<CommandOutput, WslError>) -> CommandEnd {
    match ran {
        Ok(output) => CommandEnd::Ran {
            success: output.success(),
            stdout: output.stdout_text(),
            stderr: output.stderr_text(),
            diagnostic: output.diagnostic(),
        },
        Err(source) => CommandEnd::CannotRun(source.message),
    }
}

fn element(document: &str, tag: &str) -> String {
    let opening = format!("<{tag}>");
    let closing = format!("</{tag}>");
    document
        .split_once(&opening)
        .and_then(|(_, rest)| rest.split_once(&closing))
        .map(|(text, _)| text.to_string())
        .unwrap_or_default()
}

fn task_name(distribution: &str) -> String {
    let mut name = String::from("runner-manager-wsl-");
    for byte in distribution.bytes() {
        name.push_str(&format!("{byte:02x}"));
    }
    name
}

/// The document Task Scheduler would export for this product's own task.
fn our_task_xml(distribution: &str) -> String {
    format!(
        "<?xml version=\"1.0\"?><Task><RegistrationInfo><Description>{PRODUCT_MARKER} \
         {distribution}</Description></RegistrationInfo><Actions><Exec><Command>wsl.exe</Command>\
         <Arguments>--distribution {distribution} --user root --exec {DEFAULT_LINUX_DESTINATION} \
         wsl-host hold</Arguments></Exec></Actions></Task>"
    )
}

// ---------------------------------------------------------------------------
// Provider records
// ---------------------------------------------------------------------------

/// The files of a configuration directory, by name.
#[derive(Debug, Clone, Default)]
struct AppPaths(Arc<Mutex<BTreeMap<String, String>>>);

impl AppPaths {
    fn files(&self) -> Vec<(String, String)> {
        let files = self.0.lock().expect("no test panics here");
        files
            .iter()
            .map(|(name, text)| (name.clone(), text.clone()))
            .collect()
    }

    fn put(&self, distribution: &str, text: String) {
        let mut files = self.0.lock().expect("no test panics here");
        files.insert(record_file(distribution), text);
    }
}

fn record_file(distribution: &str) -> String {
    format!("wsl/{}.record", task_name(distribution))
}

/// A record as it is kept: one value to a line.
fn write_record_of(
    paths: &AppPaths,
    distribution: &str,
    task: &str,
    version: &str,
    verified: Moment,
) {
    paths.put(
        distribution,
        format!("1\n{distribution}\n{task}\n{version}\n{}\n", verified.seconds),
    );
}

fn read_record(
    paths: &AppPaths,
    distribution: &str,
) -> Result<Option<ProviderRecordSnapshot>, WslError> {
    let files = paths.0.lock().expect("no test panics here");
    let Some(text) = files.get(&record_file(distribution)) else {
        return Ok(None);
    };
    let lines: Vec<&str> = text.lines().collect();
    match lines.as_slice() {
        ["1", distribution, task, version, verified] => Ok(Some(ProviderRecordSnapshot {
            schema_version: 1,
            distribution: distribution.to_string(),
            task_name: task.to_string(),
            installed_version: version.to_string(),
            last_verified: Moment {
                seconds: verified.parse().expect("a number of seconds"),
                nanos: 0,
            },
        })),
        _ => Err(wsl_error(
            WslErrorKind::Record,
            "this is not a provider record",
        )),
    }
}

fn remove_record(paths: &AppPaths, distribution: &str) -> bool {
    let mut files = paths.0.lock().expect("no test panics here");
    files.remove(&record_file(distribution)).is_some()
}

// ---------------------------------------------------------------------------
// What the commands do, over those controls
// ---------------------------------------------------------------------------

/// `status --json`, as far as it is read.
fn parsed_status(text: &str) -> Result<LinuxStatus, String> {
    let value: serde_json::Value =
        serde_json::from_str(text).map_err(|source| source.to_string())?;
    let word = |value: &serde_json::Value| value.as_str().map(str::to_string);
    Ok(LinuxStatus {
        version: word(&value["product"]["version"]).ok_or("no version")?,
        service_binary_version: word(&value["product"]["service_binary_version"]),
        credential_present: value["credential"]["present"]
            .as_bool()
            .ok_or("no credential")?,
        credential_unreadable: word(&value["credential"]["unreadable"]),
        store_scope: word(&value["credential"]["store_scope"]),
        capacity: value["host"]["capacity"]
            .as_u64()
            .and_then(|capacity| u16::try_from(capacity).ok())
            .ok_or("no capacity")?,
    })
}

fn answer_to_status(host: &WslHost, distribution: &str, command: &[String]) -> LinuxAnswer {
    let end = host.end(distribution, command);
    let parsed = match &end {
        CommandEnd::Ran { stdout, .. } => parsed_status(stdout),
        CommandEnd::CannotRun(_) => Err(String::new()),
    };
    linux_status(distribution, &command[0], end, parsed)
}

/// `wsl status`, as a document.
fn probe(
    host: &WslHost,
    paths: &AppPaths,
    distribution: &str,
    linux_binary: &str,
    unit: &str,
    version: &str,
    now: Moment,
) -> Result<WslStatusDocument, Refusal> {
    let record = read_record(paths, distribution);
    admit_probe(
        validate_distribution_name(distribution).err(),
        record.as_ref().err().cloned(),
        None,
    )?;
    let record = record.ok().flatten();
    let readiness = host.probe_readiness(distribution);
    let mut listed = false;
    let mut status = None;
    let mut enabled = None;
    let mut active = None;
    let mut docker = None;
    let mut task = None;
    for question in probe_questions(readiness.is_ok()) {
        let command = probe_command(question, linux_binary, unit).unwrap_or_default();
        match question {
            ProbeQuestion::Readiness => {}
            ProbeQuestion::Listed => {
                listed = host
                    .list()
                    .map(|entries| entries.iter().any(|entry| entry.name == distribution))
                    .unwrap_or(false);
            }
            ProbeQuestion::Status => {
                status = Some(answer_to_status(host, distribution, &command));
            }
            ProbeQuestion::Enabled => {
                enabled = systemctl_word(host.end(distribution, &command));
            }
            ProbeQuestion::Active => {
                active = systemctl_word(host.end(distribution, &command));
            }
            ProbeQuestion::Docker => {
                docker = Some(host.end(distribution, &command));
            }
            ProbeQuestion::Task => {
                task = host
                    .query_task(&task_name(distribution))
                    .ok()
                    .flatten();
            }
        }
    }
    let inside = match (status, docker) {
        (Some(status), Some(docker)) => Some(InsideFacts {
            status,
            enabled,
            active,
            docker,
        }),
        _ => None,
    };
    Ok(read_host(
        distribution,
        linux_binary,
        unit,
        version,
        record,
        &task_name(distribution),
        ProbeFacts {
            readiness: readiness.map_err(|source| source.message),
            listed,
            inside,
            task,
        },
        now,
    ))
}

/// `wsl list`.
fn list_with(host: &WslHost, paths: &AppPaths, out: &mut Vec<u8>) -> Result<(), Refusal> {
    let entries = host.list().map_err(|source| wsl_failure(&source))?;
    let rows: Vec<ListedDistribution> = entries
        .into_iter()
        .map(|entry| ListedDistribution {
            record: match read_record(paths, &entry.name) {
                Ok(Some(record)) => RecordRead::Managed(record.installed_version),
                Ok(None) => RecordRead::NotManaged,
                Err(source) => RecordRead::Unreadable(source.message),
            },
            name: entry.name,
            wsl_version: entry.wsl_version,
            state: entry.state,
            default: entry.default,
        })
        .collect();
    out.extend_from_slice(commands::list(&rows, &Vec::new()).as_bytes());
    Ok(())
}

/// `wsl detach`.
fn detach_with(
    host: &WslHost,
    paths: &AppPaths,
    distribution: &str,
    out: &mut Vec<u8>,
) -> Result<(), Refusal> {
    let mut state = Detaching::begin();
    while state.step != DetachStep::Detached {
        let event = match state.step {
            DetachStep::NameTask => match validate_distribution_name(distribution) {
                Ok(()) => DetachEvent::Done,
                Err(source) => DetachEvent::Refused(source),
            },
            DetachStep::StopTask => match host.stop_task(distribution) {
                Ok(stopped) => DetachEvent::Stopped(stopped),
                Err(source) => DetachEvent::Refused(source),
            },
            DetachStep::RemoveTask => match host.remove_task(distribution) {
                Ok(removed) => DetachEvent::TaskRemoved {
                    name: task_name(distribution),
                    removed,
                },
                Err(source) => DetachEvent::Refused(source),
            },
            DetachStep::RemoveRecord => {
                DetachEvent::RecordRemoved(remove_record(paths, distribution))
            }
            DetachStep::Detached => unreachable!("the loop has ended"),
        };
        let moved = commands::detach(distribution, state, event);
        out.extend_from_slice(moved.said.as_bytes());
        state = moved.next?;
    }
    Ok(())
}

fn write_status_text(document: &WslStatusDocument, out: &mut Vec<u8>) {
    let mut said = String::new();
    report::write_status_text(document, &mut said);
    out.extend_from_slice(said.as_bytes());
}

fn write_install_report(
    document: &WslStatusDocument,
    outcome: &InstallOutcome,
    out: &mut Vec<u8>,
) {
    let mut said = String::new();
    report::write_install_report(document, outcome, &mut said);
    out.extend_from_slice(said.as_bytes());
}

/// Where the release comes from.
trait ReleaseAssets {
    fn describe(&self) -> String;
    fn checksums(&self) -> Result<String, Refusal>;
    fn download(&self, asset: &str) -> Result<Vec<u8>, Refusal>;
}

/// Who signs in.
trait CredentialIssuer {
    fn issue(
        &self,
        send: &mut dyn FnMut(&str) -> Result<(), SecretSinkError>,
    ) -> Result<(), Refusal>;
}

/// Hands one credential to `auth receive` on its standard input.
fn send_credential(
    host: &WslHost,
    sink: &mut WslSecretSink,
    document: &str,
) -> Result<(), SecretSinkError> {
    let end = end_of(host.wsl(
        &sink.distribution,
        &sink.receive_command(),
        document.as_bytes().to_vec(),
        Duration::from_secs(60),
    ));
    sink.settle(&end)
}

fn sink_failure(source: SecretSinkError) -> Refusal {
    let message = match source {
        SecretSinkError::Undeliverable {
            destination,
            reason,
        } => format!("cannot deliver to {destination}: {reason}"),
        SecretSinkError::Refused {
            destination,
            reason,
        } => format!("{destination} refused it: {reason}"),
    };
    Refusal::new(Failure::SecretStore, message)
}

fn settled(ended: Result<(), WslError>) -> InstallEvent {
    match ended {
        Ok(()) => InstallEvent::Done,
        Err(source) => InstallEvent::Refused(source),
    }
}

/// An install over those controls.
struct Provisioner<'a> {
    host: &'a WslHost,
    assets: &'a dyn ReleaseAssets,
    issuer: &'a dyn CredentialIssuer,
    paths: &'a AppPaths,
    version: String,
    linux_binary: String,
    unit: String,
    now: Moment,
}

impl Provisioner<'_> {
    fn install(
        &self,
        distribution: &str,
        capacity: Option<u16>,
        out: &mut Vec<u8>,
    ) -> Result<(WslStatusDocument, InstallOutcome), Refusal> {
        let plan = Plan {
            version: self.version.clone(),
            linux_binary: self.linux_binary.clone(),
            unit: self.unit.clone(),
            assets: self.assets.describe(),
            capacity,
        };
        let mut progress = Progress::begin();
        let mut sums = String::new();
        let mut archive = Vec::new();
        while progress.step != InstallStep::ReadBack {
            let event = self.perform(&plan, &progress, distribution, &mut sums, &mut archive);
            let moved = plan.install(progress, event);
            out.extend_from_slice(moved.said.as_bytes());
            progress = moved.next?;
        }
        let document = probe(
            self.host,
            self.paths,
            distribution,
            &self.linux_binary,
            &self.unit,
            &self.version,
            self.now,
        )?;
        Ok((document, plan.outcome(&progress)))
    }

    fn perform(
        &self,
        plan: &Plan,
        progress: &Progress,
        distribution: &str,
        sums: &mut String,
        archive: &mut Vec<u8>,
    ) -> InstallEvent {
        let host = self.host;
        let command = plan.linux_command(progress.step).unwrap_or_default();
        let asset = format!("runner-manager-{}-{TRIPLE}.tar.gz", self.version);
        match progress.step {
            InstallStep::Preflight => match host.probe_readiness(distribution) {
                Ok(readiness) => InstallEvent::Ready(readiness),
                Err(source) => InstallEvent::Refused(source),
            },
            InstallStep::NameTask => InstallEvent::TaskNamed(task_name(distribution)),
            InstallStep::QueryTask => match host.query_task(&progress.task_name) {
                Ok(task) => InstallEvent::TaskFound(task),
                Err(source) => InstallEvent::Refused(source),
            },
            InstallStep::RefuseForeignTask => InstallEvent::Spelled(format!(
                "{}: {}",
                progress.task_name,
                progress.foreign_detail().expect("a task in the way")
            )),
            InstallStep::ChooseTarget => InstallEvent::Done,
            InstallStep::ReadChecksums => match self.assets.checksums() {
                Ok(document) => {
                    *sums = document;
                    InstallEvent::Done
                }
                Err(failure) => InstallEvent::Failed(failure.0),
            },
            InstallStep::SelectRelease => {
                if sums.contains(&asset) {
                    InstallEvent::Selected(asset)
                } else {
                    InstallEvent::Refused(wsl_error(
                        WslErrorKind::NoSuchArtifact,
                        format!("the release holds no {asset}"),
                    ))
                }
            }
            InstallStep::Download => match self.assets.download(&progress.asset) {
                Ok(bytes) => {
                    *archive = bytes;
                    InstallEvent::Done
                }
                Err(failure) => InstallEvent::Failed(failure.0),
            },
            InstallStep::InstallBinary => {
                let digest = sums.split_whitespace().next().unwrap_or_default();
                settled(host.install_binary(distribution, archive, digest, &self.version))
            }
            InstallStep::ReadBefore
            | InstallStep::ReadServiceCopy
            | InstallStep::HandoverStatus
            | InstallStep::ReadCredential => {
                InstallEvent::Answered(answer_to_status(host, distribution, &command))
            }
            InstallStep::AskActiveBefore
            | InstallStep::HandoverActive
            | InstallStep::AskEnabled
            | InstallStep::AskActive => {
                InstallEvent::Word(systemctl_word(host.end(distribution, &command)))
            }
            InstallStep::HandoverMain => {
                let word = systemctl_word(host.end(distribution, &command));
                let version = main_pid(&word).and_then(|pid| {
                    let executable = process_executable(pid);
                    reported_version(&host.end(distribution, &spoken(&[&executable, "--version"])))
                });
                InstallEvent::MainVersion(version)
            }
            InstallStep::HandoverWait => InstallEvent::Done,
            InstallStep::IssueCredential => {
                let mut sink = WslSecretSink::new(distribution, &self.linux_binary, StartAt::Boot);
                assert_eq!(sink.receive_command(), command);
                let issued = self
                    .issuer
                    .issue(&mut |document| send_credential(host, &mut sink, document));
                match issued {
                    Ok(()) => InstallEvent::Issued {
                        shown: "It renews itself.".to_string(),
                        delivered: sink.delivered() > 0,
                    },
                    Err(failure) => InstallEvent::Failed(failure.0),
                }
            }
            InstallStep::SetCapacity
            | InstallStep::EnableUnit
            | InstallStep::StartAdopted
            | InstallStep::InstallService
            | InstallStep::StartInstalled => {
                settled(host.exec_ok(distribution, &command, Vec::new()))
            }
            InstallStep::RegisterTask => {
                let task = plan.registration(progress);
                assert_eq!(task.task_name, task_name(distribution));
                assert_eq!(task.linux_binary, self.linux_binary);
                settled(host.register_task(&task.distribution))
            }
            InstallStep::StartTask => settled(host.start_task(distribution)),
            InstallStep::WriteRecord => {
                let record = plan.record(progress, self.now);
                write_record_of(
                    self.paths,
                    &record.distribution,
                    &record.task_name,
                    &record.installed_version,
                    record.last_verified,
                );
                InstallEvent::Done
            }
            InstallStep::ReadBack => unreachable!("the loop has ended"),
        }
    }
}

// ---------------------------------------------------------------------------
// The workstation's fakes
// ---------------------------------------------------------------------------

/// The version that these installs provision.
fn version() -> &'static str {
    "0.4.0"
}

const UNIT: &str = "runner-manager.service";
const TRIPLE: &str = "x86_64-unknown-linux-gnu";
const LINUX_BINARY: &str = DEFAULT_LINUX_DESTINATION;

/// The three secrets of one distribution's credential, which are not real.
fn canaries_for(tag: &str) -> [String; 3] {
    [
        format!("{}b3{tag}AccessNotARealToken", "ghu_"),
        format!("{}b3{tag}RefreshNotARealToken", "ghr_"),
        format!("{}b3{tag}JitConfigNotARealOne=", "eyJ"),
    ]
}

/// The document that the device flow hands over.
fn credential_document(tag: &str) -> String {
    let [access, refresh, jit] = canaries_for(tag);
    format!(
        "{{\"schema\":1,\"access_token\":\"{access}\",\"refresh_token\":\"{refresh}\",\
         \"jit_config\":\"{jit}\"}}"
    )
}

/// Everything that was done, in order, across all the fakes.
#[derive(Debug, Default, Clone)]
struct Journal(Arc<Mutex<Vec<String>>>);

impl Journal {
    fn note(&self, entry: impl Into<String>) {
        self.0
            .lock()
            .expect("the journal is not shared across a panic")
            .push(entry.into());
    }

    fn entries(&self) -> Vec<String> {
        self.0
            .lock()
            .expect("the journal is not shared across a panic")
            .clone()
    }

    fn position(&self, needle: &str) -> Option<usize> {
        self.entries()
            .iter()
            .position(|entry| entry.contains(needle))
    }

    fn count(&self, needle: &str) -> usize {
        self.entries()
            .iter()
            .filter(|entry| entry.contains(needle))
            .count()
    }

    /// Where something happened, or a failure that prints the whole log.
    fn at(&self, needle: &str) -> usize {
        self.position(needle).unwrap_or_else(|| {
            panic!(
                "{needle:?} never happened. The journal was:\n{:#?}",
                self.entries()
            )
        })
    }

    fn never(&self, needle: &str) {
        assert_eq!(
            self.count(needle),
            0,
            "{needle:?} must not have happened. The journal was:\n{:#?}",
            self.entries()
        );
    }

    /// Asserts that the log reads in this order.
    fn in_order(&self, steps: &[&str]) {
        for pair in steps.windows(2) {
            assert!(
                self.at(pair[0]) < self.at(pair[1]),
                "{:?} must happen before {:?}. The journal was:\n{:#?}",
                pair[0],
                pair[1],
                self.entries()
            );
        }
    }
}

/// Answers from a script, and journals on the way through.
#[derive(Debug, Clone)]
struct FakeControls {
    inner: Arc<ScriptedRunner>,
    journal: Journal,
}

impl CommandRunner for FakeControls {
    fn run(&self, request: &CommandRequest) -> Result<CommandOutput, WslError> {
        self.journal.note(request.line());
        self.inner.run(request)
    }
}

/// A release whose checksum document describes the bytes it serves, and which
/// refuses a number of times first.
#[derive(Debug)]
struct FakeAssets {
    journal: Journal,
    document: String,
    archive: Vec<u8>,
    refusals_left: Mutex<usize>,
}

impl FakeAssets {
    fn publishing(journal: Journal) -> Self {
        let archive = b"a stand-in for a release archive".to_vec();
        let digest = runner_manager::archive::sha256_of(&archive);
        Self {
            journal,
            document: format!("{digest}  runner-manager-{}-{TRIPLE}.tar.gz\n", version()),
            archive,
            refusals_left: Mutex::new(0),
        }
    }

    fn refusing_the_next(self, times: usize) -> Self {
        Self {
            refusals_left: Mutex::new(times),
            ..self
        }
    }
}

/// Takes one injected refusal, if any are left.
fn refuse_once(left: &Mutex<usize>) -> bool {
    let mut left = left.lock().expect("no test panics here");
    if *left == 0 {
        return false;
    }
    *left -= 1;
    true
}

impl ReleaseAssets for FakeAssets {
    fn describe(&self) -> String {
        "a fixture release".to_string()
    }

    fn checksums(&self) -> Result<String, Refusal> {
        self.journal.note("assets SHA256SUMS");
        if refuse_once(&self.refusals_left) {
            return Err(Refusal::new(
                Failure::GithubUnavailable,
                "the fixture release is unreachable",
            ));
        }
        Ok(self.document.clone())
    }

    fn download(&self, asset: &str) -> Result<Vec<u8>, Refusal> {
        self.journal.note(format!("assets download {asset}"));
        Ok(self.archive.clone())
    }
}

/// A device flow with no browser, that issues one distribution's credential.
#[derive(Debug)]
struct FakeIssuer {
    journal: Journal,
    tag: String,
    refusals_left: Mutex<usize>,
}

impl FakeIssuer {
    fn issuing(journal: Journal, tag: &str) -> Self {
        Self {
            journal,
            tag: tag.to_string(),
            refusals_left: Mutex::new(0),
        }
    }

    fn refusing_the_next(self, times: usize) -> Self {
        Self {
            refusals_left: Mutex::new(times),
            ..self
        }
    }
}

impl CredentialIssuer for FakeIssuer {
    fn issue(
        &self,
        send: &mut dyn FnMut(&str) -> Result<(), SecretSinkError>,
    ) -> Result<(), Refusal> {
        self.journal.note(format!("device flow for {}", self.tag));
        if refuse_once(&self.refusals_left) {
            return Err(Refusal::new(
                Failure::AuthenticationDeclined,
                "the fixture operator closed the browser",
            ));
        }
        send(&credential_document(&self.tag)).map_err(sink_failure)
    }
}

/// `status --json` as the Linux binary answers it.
fn linux_status_json(credential: bool, capacity: u16, reported: &str) -> String {
    linux_status_json_with_service(credential, capacity, reported, reported)
}

fn linux_status_json_with_service(
    credential: bool,
    capacity: u16,
    reported: &str,
    service_reported: &str,
) -> String {
    format!(
        "{{\"schema_version\":1,\"product\":{{\"name\":\"runner-manager\",\
         \"version\":\"{reported}\",\"service_binary_version\":\"{service_reported}\"}},\
         \"credential\":{{\"present\":{credential},\
         \"unreadable\":null,\"store_scope\":\"machine\"}},\
         \"host\":{{\"capacity\":{capacity}}}}}"
    )
}

fn moment(seconds: i64) -> Moment {
    Moment { seconds, nanos: 0 }
}

const DISTRIBUTION: &str = "Ubuntu";

/// Everything that one install needs.
struct Fixture {
    journal: Journal,
    host: WslHost,
    runner: Arc<ScriptedRunner>,
    assets: FakeAssets,
    issuer: FakeIssuer,
    paths: AppPaths,
    out: Vec<u8>,
}

impl Fixture {
    fn over(script: ScriptedRunner) -> Self {
        let journal = Journal::default();
        let (host, runner) = wrap(script, &journal);
        Self {
            assets: FakeAssets::publishing(journal.clone()),
            issuer: FakeIssuer::issuing(journal.clone(), DISTRIBUTION),
            journal,
            host,
            runner,
            paths: AppPaths::default(),
            out: Vec::new(),
        }
    }

    fn fresh() -> Self {
        Self::over(fresh_script())
    }

    fn install(
        &mut self,
        capacity: Option<u16>,
    ) -> Result<(WslStatusDocument, InstallOutcome), Refusal> {
        let provisioner = Provisioner {
            host: &self.host,
            assets: &self.assets,
            issuer: &self.issuer,
            paths: &self.paths,
            version: version().to_string(),
            linux_binary: LINUX_BINARY.to_string(),
            unit: UNIT.to_string(),
            now: moment(1_800_000_000),
        };
        let outcome = provisioner.install(DISTRIBUTION, capacity, &mut self.out);
        if let Ok((document, outcome)) = &outcome {
            write_install_report(document, outcome, &mut self.out);
        }
        outcome
    }

    fn output(&self) -> String {
        String::from_utf8_lossy(&self.out).into_owned()
    }
}

fn wrap(scripted: ScriptedRunner, journal: &Journal) -> (WslHost, Arc<ScriptedRunner>) {
    let inner = Arc::new(scripted);
    let controls = FakeControls {
        inner: Arc::clone(&inner),
        journal: journal.clone(),
    };
    (WslHost::over(Box::new(controls)), inner)
}

/// Plants a record that claims this version was installed.
fn write_record(paths: &AppPaths, version: &str) {
    write_record_of(
        paths,
        DISTRIBUTION,
        &task_name(DISTRIBUTION),
        version,
        moment(1_799_000_000),
    );
}

/// Probes a scripted host the way `wsl status` does.
fn probe_scripted(script: ScriptedRunner) -> (Journal, WslStatusDocument) {
    let journal = Journal::default();
    let (host, _) = wrap(script, &journal);
    let document = probe(
        &host,
        &AppPaths::default(),
        DISTRIBUTION,
        LINUX_BINARY,
        UNIT,
        version(),
        moment(1_800_000_000),
    )
    .expect("a readable host");
    (journal, document)
}

fn foreign_task_xml() -> String {
    "<?xml version=\"1.0\"?><Task><RegistrationInfo><Description>A keep-alive I made by \
     hand.</Description></RegistrationInfo><Actions><Exec><Command>wsl.exe</Command>\
     <Arguments>-d Ubuntu -- sleep infinity</Arguments></Exec></Actions></Task>"
        .to_string()
}

fn preflight_script() -> ScriptedRunner {
    ScriptedRunner::new()
        .always("--list --verbose", ok("* Ubuntu   Running   2\n"))
        .always("--exec id -u", ok("0\n"))
        .always("--exec uname -m", ok("x86_64\n"))
        .always("--exec systemctl is-system-running", ok("running\n"))
}

fn base_script() -> ScriptedRunner {
    preflight_script()
        .always("--exec systemctl is-enabled", ok("disabled\n"))
        .sequence(
            "--exec systemctl is-active",
            vec![ok("inactive\n"), ok("inactive\n"), ok("active\n")],
        )
        .always("--exec docker info", ok("27.1.1\n"))
        .always("--version", ok(&format!("runner-manager {}\n", version())))
        .sequence(
            "/XML ONE",
            vec![
                refused("ERROR: The system cannot find the file specified."),
                refused("ERROR: The system cannot find the file specified."),
                ok(&our_task_xml(DISTRIBUTION)),
            ],
        )
        .sequence(
            "/FO CSV",
            vec![
                refused("ERROR: The system cannot find the file specified."),
                ok("\"task\",\"N/A\",\"Running\"\n"),
            ],
        )
}

fn fresh_script() -> ScriptedRunner {
    base_script().sequence(
        "status --json",
        vec![
            refused("/usr/local/bin/runner-manager: not found"),
            ok(&linux_status_json(false, 1, version())),
            ok(&linux_status_json(true, 8, version())),
        ],
    )
}

fn provisioned_script(docker: CommandOutput) -> ScriptedRunner {
    preflight_script()
        .always("--exec systemctl is-enabled", ok("enabled\n"))
        .always("--exec systemctl is-active", ok("active\n"))
        .always("--exec docker info", docker)
        .always("--version", ok(&format!("runner-manager {}\n", version())))
        .always("status --json", ok(&linux_status_json(true, 8, version())))
        .always("/XML ONE", ok(&our_task_xml(DISTRIBUTION)))
        .always("/FO CSV", ok("\"task\",\"N/A\",\"Running\"\n"))
}

fn provisioned_inactive_script() -> ScriptedRunner {
    preflight_script()
        .always("--exec systemctl is-enabled", ok("enabled\n"))
        .sequence(
            "--exec systemctl is-active",
            vec![ok("inactive\n"), ok("inactive\n"), ok("active\n")],
        )
        .always("--exec docker info", ok("27.1.1\n"))
        .always("--version", ok(&format!("runner-manager {}\n", version())))
        .always("status --json", ok(&linux_status_json(true, 8, version())))
        .always("/XML ONE", ok(&our_task_xml(DISTRIBUTION)))
        .always("/FO CSV", ok("\"task\",\"N/A\",\"Running\"\n"))
}



#[test]
fn the_credential_crosses_only_on_the_childs_stdin() {
    let mut fixture = Fixture::fresh();
    fixture.install(None).expect("a clean provisioning");

    let planted = credential_document(DISTRIBUTION);
    let piped = String::from_utf8_lossy(&fixture.runner.piped_input()).into_owned();
    assert!(
        piped.contains(&planted),
        "the document must reach the child on its stdin"
    );

    for request in fixture.runner.recorded() {
        assert!(
            !request.command_line().contains(&planted),
            "the credential must never be in an argument vector: {}",
            request.command_line()
        );
    }
    for entry in fixture.journal.entries() {
        assert!(!entry.contains(&planted), "nor in the log: {entry}");
    }
    assert!(
        !fixture.output().contains(&planted),
        "nor in what the operator sees: {}",
        fixture.output()
    );
    let files = fixture.paths.files();
    assert_eq!(files.len(), 1, "the record was written");
    let record = &files[0].1;
    assert!(!record.contains(&planted), "nor in the provider record");
    assert!(
        !record.contains("ghu_") && !record.contains("ghr_"),
        "nor anything shaped like one: {record}"
    );
}

#[test]
fn the_install_runs_its_stages_in_the_documented_order() {
    let mut fixture = Fixture::fresh();
    let (document, outcome) = fixture.install(Some(8)).expect("a clean provisioning");

    assert!(document.healthy, "{document:#?}");
    assert!(outcome.binary_replaced);
    assert!(outcome.credential_issued);
    assert_eq!(outcome.capacity_set, Some(8));
    assert!(outcome.service_installed);

    let downloaded = format!("assets download runner-manager-{}-{TRIPLE}.tar.gz", version());
    fixture.journal.in_order(&[
        "--list --verbose",                   // 1. is it there, and is it WSL2
        "--exec id -u",                       //    does it start as root
        "--exec uname -m",                    //    is its architecture published
        "--exec systemctl is-system-running", //    does it run systemd
        "assets SHA256SUMS",                  // 2. the exact-version artifact
        &downloaded,
        "--exec mkdir", // 3. install the binary atomically
        "--exec tar",
        "--exec mv",
        "device flow",         // 4. issue a credential, having found none
        "auth receive",        //    and hand it over on a pipe
        "host set-capacity 8", // 5. capacity, because one was supplied
        "service install --start-at boot", // 6. the Linux service
        "/Create",             // 7. the Windows lifecycle task
        "/Run",
        "--exec docker info", // 8. the read-back
    ]);

    let first_mutation = fixture.journal.at("--exec mkdir");
    for probe in [
        "--list --verbose",
        "--exec id -u",
        "--exec uname -m",
        "--exec systemctl is-system-running",
    ] {
        assert!(fixture.journal.at(probe) < first_mutation, "{probe}");
    }
    assert!(
        fixture.journal.at("device flow") > fixture.journal.at("--exec mv"),
        "a credential is issued only once the host is able to hold it"
    );
}

fn assert_untouched(fixture: &Fixture, what: &str) {
    for mutation in [
        "device flow",
        "auth receive",
        "assets download",
        "--exec mkdir",
        "--exec tar",
        "--exec mv",
        "host set-capacity",
        "service install",
        "/Create",
        "/Delete",
    ] {
        assert!(
            fixture.journal.position(mutation).is_none(),
            "{what}: {mutation} must not have happened. The journal was:\n{:#?}",
            fixture.journal.entries()
        );
    }
    assert!(
        read_record(&fixture.paths, DISTRIBUTION)
            .expect("a readable record directory")
            .is_none(),
        "{what}: no provider record may be written"
    );
}

#[test]
fn nothing_is_mutated_and_no_credential_is_issued_when_the_preflight_refuses() {
    let refusals: [(&str, ScriptedRunner, Failure); 5] = [
        (
            "a distribution that is not installed",
            ScriptedRunner::new().always("--list --verbose", ok("  Debian   Running   2\n")),
            Failure::NotFound,
        ),
        (
            "WSL1, which has neither systemd nor a Linux kernel",
            ScriptedRunner::new().always("--list --verbose", ok("* Ubuntu   Running   1\n")),
            Failure::UnsupportedHost,
        ),
        (
            "a distribution that does not start as root",
            ScriptedRunner::new()
                .always("--list --verbose", ok("* Ubuntu   Running   2\n"))
                .always("--exec id -u", ok("1000\n")),
            Failure::UnsupportedHost,
        ),
        (
            "an architecture the release does not publish",
            ScriptedRunner::new()
                .always("--list --verbose", ok("* Ubuntu   Running   2\n"))
                .always("--exec id -u", ok("0\n"))
                .always("--exec uname -m", ok("armv7l\n")),
            Failure::UnsupportedHost,
        ),
        (
            "a distribution with no systemd",
            ScriptedRunner::new()
                .always("--list --verbose", ok("* Ubuntu   Running   2\n"))
                .always("--exec id -u", ok("0\n"))
                .always("--exec uname -m", ok("x86_64\n"))
                .always("--exec systemctl is-system-running", refused("not found")),
            Failure::UnsupportedHost,
        ),
    ];

    for (what, script, class) in refusals {
        let mut fixture = Fixture::over(script);
        let refusal = fixture.install(Some(4)).expect_err(what);
        assert_eq!(refusal.class(), class, "{what}: {refusal}");
        assert!(
            refusal.to_string().contains("nothing has been changed"),
            "{what} must say so: {refusal}"
        );
        assert_untouched(&fixture, what);
    }
}

#[test]
fn a_task_somebody_else_made_stops_the_transaction_before_it_changes_anything() {
    let mut fixture = Fixture::over(
        preflight_script()
            .always("/XML ONE", ok(&foreign_task_xml()))
            .always("/FO CSV", ok("\"task\",\"N/A\",\"Ready\"\n")),
    );

    let refusal = fixture.install(None).expect_err("a foreign task");
    assert_eq!(refusal.class(), Failure::Conflict);
    assert!(refusal.to_string().contains(PRODUCT_MARKER), "{refusal}");
    assert!(
        refusal.to_string().contains("nothing has been changed"),
        "asking in the preflight is what turns this into a no-op: {refusal}"
    );
    assert_untouched(&fixture, "a foreign task");
}

#[test]
fn a_healthy_linux_credential_is_adopted_and_never_replaced() {
    let mut fixture = Fixture::over(provisioned_script(ok("27.1.1\n")));
    let (document, outcome) = fixture.install(None).expect("an adoption");

    assert!(!outcome.credential_issued);
    assert!(
        !outcome.binary_replaced,
        "the binary was already this version"
    );
    fixture.journal.never("device flow");
    fixture.journal.never("auth receive");
    fixture.journal.never("--exec mkdir");
    assert!(document.credential.present);
    assert!(
        fixture.output().contains("left untouched"),
        "and it says so: {}",
        fixture.output()
    );
}

#[test]
fn an_active_outdated_service_hands_over_without_a_systemctl_stop() {
    let old = "0.3.2";
    let script = preflight_script()
        .sequence(
            "status --json",
            vec![
                ok(&linux_status_json_with_service(true, 8, version(), old)),
                ok(&linux_status_json_with_service(true, 8, version(), old)),
                ok(&linux_status_json(true, 8, version())),
                ok(&linux_status_json(true, 8, version())),
                ok(&linux_status_json(true, 8, version())),
                ok(&linux_status_json(true, 8, version())),
            ],
        )
        .always("--exec systemctl is-enabled", ok("enabled\n"))
        .always("--exec systemctl is-active", ok("active\n"))
        .sequence(
            "--exec systemctl show --property=MainPID --value",
            vec![ok("123\n"), ok("124\n")],
        )
        .sequence(
            "--exec /proc/123/exe --version",
            vec![ok(&format!("runner-manager {old}\n"))],
        )
        .always(
            "--exec /proc/124/exe --version",
            ok(&format!("runner-manager {}\n", version())),
        )
        .always("--exec docker info", ok("27.1.1\n"))
        .always("/XML ONE", ok(&our_task_xml(DISTRIBUTION)))
        .always("/FO CSV", ok("\"task\",\"N/A\",\"Running\"\n"));
    let mut fixture = Fixture::over(script);

    let (document, outcome) = fixture
        .install(None)
        .expect("the daemon-owned handover completes");

    assert!(document.healthy, "{document:#?}");
    assert!(!outcome.binary_replaced);
    assert!(!outcome.service_installed);
    fixture.journal.never("--exec systemctl stop");
    fixture.journal.never("service install");
    fixture.journal.in_order(&[
        "--exec /proc/123/exe --version",
        "--exec /proc/124/exe --version",
    ]);
    assert!(
        fixture.output().contains("cooperative upgrade handover"),
        "{}",
        fixture.output()
    );
    assert!(
        fixture.output().contains("systemd restarted it"),
        "{}",
        fixture.output()
    );
}

#[test]
fn replacing_an_active_services_source_requests_its_safe_handover() {
    let old = "0.3.2";
    let script = preflight_script()
        .sequence(
            "status --json",
            vec![
                ok(&linux_status_json(true, 8, old)),
                ok(&linux_status_json_with_service(true, 8, version(), old)),
                ok(&linux_status_json(true, 8, version())),
            ],
        )
        .always("--exec systemctl is-enabled", ok("enabled\n"))
        .always("--exec systemctl is-active", ok("active\n"))
        .always(
            "--exec systemctl show --property=MainPID --value",
            ok("123\n"),
        )
        .always(
            "--exec /proc/123/exe --version",
            ok(&format!("runner-manager {}\n", version())),
        )
        .always("--exec docker info", ok("27.1.1\n"))
        .always("--version", ok(&format!("runner-manager {}\n", version())))
        .always("/XML ONE", ok(&our_task_xml(DISTRIBUTION)))
        .always("/FO CSV", ok("\"task\",\"N/A\",\"Running\"\n"));
    let mut fixture = Fixture::over(script);

    let (document, outcome) = fixture
        .install(None)
        .expect("the source change lets the daemon hand itself over");

    assert!(document.healthy, "{document:#?}");
    assert!(outcome.binary_replaced);
    assert!(!outcome.service_installed);
    fixture.journal.never("--exec systemctl stop");
    fixture.journal.never("service install");
    fixture
        .journal
        .in_order(&["--exec mv", "--exec /proc/123/exe --version"]);
}

#[test]
fn a_failed_cooperative_restart_is_reported_without_forcing_the_service() {
    let old = "0.3.2";
    let script = preflight_script()
        .sequence(
            "status --json",
            vec![
                ok(&linux_status_json_with_service(true, 8, version(), old)),
                ok(&linux_status_json_with_service(true, 8, version(), old)),
                ok(&linux_status_json(true, 8, version())),
            ],
        )
        .sequence(
            "--exec systemctl is-active",
            vec![ok("active\n"), ok("failed\n")],
        )
        .always("/XML ONE", ok(&our_task_xml(DISTRIBUTION)));
    let mut fixture = Fixture::over(script);

    let refusal = fixture
        .install(None)
        .expect_err("a unit that cannot restart must not be reported healthy");

    assert_eq!(refusal.class(), Failure::WslProvisioning);
    assert!(refusal.to_string().contains("systemd reported it failed"));
    fixture.journal.never("--exec systemctl stop");
    fixture.journal.never("service install");
    fixture.journal.never("--exec systemctl start");
}

#[test]
fn an_active_disabled_service_is_drained_before_it_is_enabled() {
    let old = "0.3.2";
    let script = preflight_script()
        .sequence(
            "status --json",
            vec![
                ok(&linux_status_json_with_service(true, 8, version(), old)),
                ok(&linux_status_json_with_service(true, 8, version(), old)),
                ok(&linux_status_json(true, 8, version())),
            ],
        )
        .always("--exec systemctl is-enabled", ok("disabled\n"))
        .always("--exec systemctl is-active", ok("active\n"))
        .always(
            "--exec systemctl show --property=MainPID --value",
            ok("123\n"),
        )
        .always(
            "--exec /proc/123/exe --version",
            ok(&format!("runner-manager {}\n", version())),
        )
        .always("--exec systemctl enable", ok(""))
        .always("--exec docker info", ok("27.1.1\n"))
        .always("/XML ONE", ok(&our_task_xml(DISTRIBUTION)))
        .always("/FO CSV", ok("\"task\",\"N/A\",\"Running\"\n"));
    let mut fixture = Fixture::over(script);

    let (document, outcome) = fixture
        .install(None)
        .expect("the disabled unit is safely repaired");

    assert!(document.healthy, "{document:#?}");
    assert!(!outcome.service_installed);
    fixture.journal.never("--exec systemctl stop");
    fixture.journal.never("service install");
    fixture.journal.in_order(&[
        "--exec /proc/123/exe --version",
        "--exec systemctl enable runner-manager.service",
    ]);
}

#[test]
fn a_legacy_active_service_is_left_untouched() {
    let script = preflight_script()
        .always(
            "status --json",
            ok(&linux_status_json_with_service(true, 8, version(), "0.1.7")),
        )
        .always("--exec systemctl is-active", ok("active\n"))
        .always("/XML ONE", ok(&our_task_xml(DISTRIBUTION)));
    let mut fixture = Fixture::over(script);

    let refusal = fixture
        .install(None)
        .expect_err("a legacy daemon cannot prove it will drain safely");

    assert_eq!(refusal.class(), Failure::WslProvisioning);
    assert!(refusal.to_string().contains("predates"), "{refusal}");
    assert!(refusal.to_string().contains("not stopped"), "{refusal}");
    for unsafe_or_mutating in [
        "--exec systemctl stop",
        "--exec mkdir",
        "--exec tar",
        "--exec mv",
        "service install",
        "--exec systemctl start",
    ] {
        fixture.journal.never(unsafe_or_mutating);
    }
}

#[test]
fn a_status_that_will_not_answer_refuses_rather_than_issuing_a_second_credential() {
    let mut fixture = Fixture::over(base_script().sequence(
        "status --json",
        vec![
            refused("/usr/local/bin/runner-manager: not found"),
            refused("cannot open the local database at /var/lib/runner-manager/state.db"),
        ],
    ));

    let refusal = fixture
        .install(None)
        .expect_err("a status that will not answer is not an absent credential");

    assert_eq!(refusal.class(), Failure::WslProvisioning);
    let message = refusal.to_string();
    assert!(
        message.contains("credential"),
        "the failure must name its stage: {message}"
    );
    assert!(
        message.contains("cannot open the local database"),
        "and it must carry the child's own reason rather than invent one: {message}"
    );
    assert!(
        refusal.remedy().is_some(),
        "and it must name a command: {message}"
    );
    fixture.journal.never("device flow");
    fixture.journal.never("auth receive");
    fixture.journal.never("/Create");
    assert!(
        read_record(&fixture.paths, DISTRIBUTION)
            .expect("a readable directory")
            .is_none(),
        "and nothing may claim the host is managed"
    );
}

#[test]
fn a_declined_sign_in_leaves_what_landed_and_registers_nothing() {
    let mut fixture = Fixture::fresh();
    fixture.issuer =
        FakeIssuer::issuing(fixture.journal.clone(), DISTRIBUTION).refusing_the_next(1);
    let refusal = fixture.install(None).expect_err("declined");

    assert_eq!(refusal.class(), Failure::AuthenticationDeclined);
    assert!(refusal.to_string().contains("credential"), "{refusal}");
    fixture.journal.at("--exec mv");
    fixture.journal.never("auth receive");
    fixture.journal.never("/Create");
    assert!(
        read_record(&fixture.paths, DISTRIBUTION)
            .expect("a readable directory")
            .is_none(),
        "a failed device flow leaves no provider record"
    );
}

#[test]
fn an_enabled_unit_is_adopted_rather_than_reinstalled() {
    let mut fixture = Fixture::over(provisioned_script(ok("27.1.1\n")));
    let (_, outcome) = fixture.install(None).expect("an adoption");

    assert!(!outcome.service_installed);
    fixture.journal.never("service install");
    assert!(
        fixture.output().contains("adopted rather than reinstalled"),
        "{}",
        fixture.output()
    );
}

#[test]
fn an_enabled_but_inactive_unit_is_started_when_it_is_adopted() {
    let mut fixture = Fixture::over(provisioned_inactive_script());
    let (document, outcome) = fixture.install(None).expect("an inactive adoption");

    assert!(document.healthy, "{document:#?}");
    assert!(!outcome.service_installed);
    fixture.journal.never("service install");
    fixture
        .journal
        .at("--exec systemctl start runner-manager.service");
    assert!(
        fixture.output().contains("adopted and started"),
        "{}",
        fixture.output()
    );
}

#[test]
fn capacity_is_changed_only_when_it_was_supplied() {
    let mut without = Fixture::fresh();
    let (_, outcome) = without.install(None).expect("a clean provisioning");
    assert_eq!(outcome.capacity_set, None);
    without.journal.never("host set-capacity");
    assert!(
        without.output().contains("unchanged (none was supplied)"),
        "{}",
        without.output()
    );

    let mut with = Fixture::fresh();
    let (_, outcome) = with.install(Some(8)).expect("a clean provisioning");
    assert_eq!(outcome.capacity_set, Some(8));
    with.journal.at("host set-capacity 8");

    for untouched in [
        "--exec /usr/local/bin/runner-manager repo",
        "--exec /usr/local/bin/runner-manager org",
        "host set-runtime-root",
        "host reset-runtime-root",
        "auth logout",
    ] {
        with.journal.never(untouched);
    }
}

#[test]
fn a_rerun_over_a_provisioned_host_changes_nothing_and_still_succeeds() {
    let mut fixture = Fixture::over(provisioned_script(ok("27.1.1\n")));
    let (document, outcome) = fixture.install(None).expect("a convergent rerun");

    assert!(document.healthy);
    assert_eq!(
        outcome,
        InstallOutcome {
            version: version().to_string(),
            binary_replaced: false,
            credential_issued: false,
            capacity_set: None,
            service_installed: false,
        },
        "a convergent transaction over a host that is already right does nothing to it"
    );
    fixture.journal.never("--exec mkdir");
    fixture.journal.never("device flow");
    fixture.journal.never("service install");
    fixture.journal.at("/Create");
    fixture.journal.at("/Run");
}

#[test]
fn every_injected_failure_names_its_stage_and_leaves_the_host_safe_to_rerun() {
    let mut artifact = Fixture::fresh();
    artifact.assets = FakeAssets::publishing(artifact.journal.clone()).refusing_the_next(1);

    let cases: [(&str, Fixture); 5] = [
        ("release artifact", artifact),
        (
            "Linux binary",
            Fixture::over(fresh_script().always("--exec mv", refused("Read-only file system"))),
        ),
        (
            "capacity",
            Fixture::over(
                fresh_script().always("host set-capacity", refused("the database is locked")),
            ),
        ),
        (
            "Linux service",
            Fixture::over(
                fresh_script().always("service install", refused("systemd refused the unit")),
            ),
        ),
        (
            "Windows lifecycle task",
            Fixture::over(fresh_script().always("/Create", refused("Access is denied."))),
        ),
    ];

    for (stage, mut fixture) in cases {
        let refusal = fixture.install(Some(4)).expect_err(stage);
        let message = refusal.to_string();
        assert!(
            message.contains(stage),
            "the failure must name the stage {stage:?}: {message}"
        );
        assert!(
            message.contains("safe to run again once this is fixed"),
            "and it must say a rerun is safe rather than leave it to be guessed: {message}"
        );
        assert!(
            refusal.remedy().is_some(),
            "and it must name a command: {message}"
        );
    }
}

#[test]
fn a_partly_provisioned_host_is_refused_rather_than_reported_as_working() {
    let mut fixture = Fixture::over(base_script().sequence(
        "status --json",
        vec![
            refused("not found"),
            ok(&linux_status_json(false, 1, version())),
            ok(&linux_status_json(false, 1, version())),
        ],
    ));
    let (document, _) = fixture.install(None).expect("the stages themselves ran");
    assert!(!document.healthy);

    let refusal = refuse_a_partial_host(&document).map_err(Refusal).expect_err("not a working host");
    assert_eq!(refusal.class(), Failure::WslProvisioning);
    assert!(
        refusal
            .to_string()
            .contains("holds no credential of its own"),
        "the refusal names the part that is missing: {refusal}"
    );
    assert!(
        refusal
            .to_string()
            .contains("Everything that did land stands"),
        "and it does not suggest starting over: {refusal}"
    );
    assert!(
        refuse_a_partial_host(&{
            let mut healthy = document.clone();
            healthy.healthy = true;
            healthy
        })
        .is_ok(),
        "and a healthy host is not refused"
    );
}

#[test]
fn status_reads_the_host_and_reports_every_documented_part() {
    let (_journal, document) = probe_scripted(fresh_script());

    assert_eq!(document.schema_version, WSL_STATUS_SCHEMA_VERSION);
    assert!(document.provider_record.is_none(), "nothing manages it yet");
    assert!(document.wsl.ready);
    assert_eq!(document.wsl.wsl_version, Some(2));
    assert_eq!(document.wsl.machine.as_deref(), Some("x86_64"));
    assert!(document.binary.problem.is_some(), "no binary is installed");
    assert!(!document.credential.present);
    assert_eq!(document.service.unit, UNIT);
    assert!(!document.lifecycle_task.registered);
    assert_eq!(document.diagnostics.len(), 1);
    assert_eq!(document.diagnostics[0].name, "docker");
    assert!(!document.healthy);
    assert!(
        document
            .availability
            .contains("after the owning Windows account logs on"),
        "the per-user constraint is stated rather than left to be discovered"
    );

    let parts = document.unhealthy_parts().join("; ");
    for expected in ["Linux binary", "credential", "lifecycle task"] {
        assert!(
            parts.contains(expected),
            "{expected} must be named: {parts}"
        );
    }
}

#[test]
fn status_is_unhealthy_when_the_running_service_copy_is_an_older_version() {
    let script = preflight_script()
        .always(
            "status --json",
            ok(&linux_status_json_with_service(true, 8, version(), "0.3.2")),
        )
        .always("--exec systemctl is-enabled", ok("enabled\n"))
        .always("--exec systemctl is-active", ok("active\n"))
        .always("--exec docker info", ok("27.1.1\n"))
        .always("/XML ONE", ok(&our_task_xml(DISTRIBUTION)))
        .always("/FO CSV", ok("\"task\",\"N/A\",\"Running\"\n"));
    let (_journal, document) = probe_scripted(script);

    assert!(!document.healthy);
    assert_eq!(document.service.binary_version.as_deref(), Some("0.3.2"));
    assert!(!document.service.matches_expected);
    assert!(
        document
            .unhealthy_parts()
            .join("; ")
            .contains("its binary is 0.3.2")
    );
}

#[test]
fn a_record_never_makes_an_unprovisioned_host_look_healthy() {
    let journal = Journal::default();
    let (host, _) = wrap(
        preflight_script()
            .always("status --json", refused("not found"))
            .always("--exec systemctl is-active", ok("inactive\n"))
            .always("/XML ONE", refused("no such task")),
        &journal,
    );
    let paths = AppPaths::default();
    write_record(&paths, "9.9.9");

    let document = probe(
        &host,
        &paths,
        DISTRIBUTION,
        DEFAULT_LINUX_DESTINATION,
        UNIT,
        version(),
        moment(1_800_000_000),
    )
    .expect("a readable host");

    assert!(
        !document.healthy,
        "a record is advisory; health is read from the distribution"
    );
    assert!(document.provider_record.is_some());
    let drift = document.drift.join("; ");
    assert!(drift.contains("no task named"), "{drift}");
    assert!(drift.contains("9.9.9"), "{drift}");
}

#[test]
fn an_absent_record_is_not_drift() {
    let (_journal, document) = probe_scripted(fresh_script());
    assert!(
        document.drift.is_empty(),
        "asking about an unmanaged distribution is a legitimate question with a \
         legitimate answer: {:?}",
        document.drift
    );
}

#[test]
fn a_binary_that_refuses_is_reported_in_its_own_words_and_not_called_absent() {
    let (_journal, document) = probe_scripted(base_script().always(
        "status --json",
        refused("cannot read this host's attempt journal: database disk image is malformed"),
    ));

    let problem = document
        .binary
        .problem
        .as_deref()
        .expect("a binary that will not answer is a problem");
    assert!(
        problem.contains("database disk image is malformed"),
        "the child's own reason must survive: {problem}"
    );
    assert!(
        !document.binary.installed,
        "nothing usable answered, so nothing may be treated as installed"
    );
    assert!(!document.healthy);
}

#[test]
fn a_question_that_was_never_asked_is_not_drift() {
    let journal = Journal::default();
    let (host, _) = wrap(
        ScriptedRunner::new()
            .always("--list --verbose", ok("* Ubuntu   Running   1\n"))
            .always("/XML ONE", ok(&our_task_xml(DISTRIBUTION)))
            .always("/FO CSV", ok("\"task\",\"N/A\",\"Running\"\n")),
        &journal,
    );
    let paths = AppPaths::default();
    write_record(&paths, version());

    let document = probe(
        &host,
        &paths,
        DISTRIBUTION,
        DEFAULT_LINUX_DESTINATION,
        UNIT,
        version(),
        moment(1_800_000_000),
    )
    .expect("a readable host");

    assert!(!document.wsl.ready, "WSL1 is not usable");
    assert!(
        !document
            .drift
            .iter()
            .any(|line| line.contains("readable binary")),
        "the binary was never asked about, so its absence is not evidence: {:?}",
        document.drift
    );
    assert!(
        document.drift.is_empty(),
        "and nothing else disagrees either: {:?}",
        document.drift
    );
    assert!(
        !document.healthy,
        "the distribution is still not a usable host, which is what `wsl` says"
    );
}

#[test]
fn docker_is_a_diagnostic_and_never_decides_health() {
    let (_journal, document) = probe_scripted(provisioned_script(refused(
        "Cannot connect to the Docker daemon",
    )));

    assert!(
        document.healthy,
        "a host with no Docker still runs every job that does not use a container"
    );
    let docker = &document.diagnostics[0];
    assert!(!docker.available);
    assert!(
        docker.detail.contains("container jobs would fail"),
        "and the report says exactly what is affected: {}",
        docker.detail
    );
}

#[test]
fn a_distribution_that_is_not_wsl2_is_reported_as_installed_and_not_ready() {
    let (journal, document) = probe_scripted(
        ScriptedRunner::new().always("--list --verbose", ok("  Ubuntu   Running   1\n")),
    );

    assert!(document.wsl.installed, "it is there");
    assert!(!document.wsl.ready, "and it cannot be a runner host");
    assert!(
        document
            .wsl
            .problem
            .as_deref()
            .unwrap_or_default()
            .contains("WSL2 only"),
        "{:?}",
        document.wsl.problem
    );
    journal.never("--exec docker");
    journal.never("status --json");
}

#[test]
fn the_text_report_names_every_part_separately() {
    let (_journal, document) = probe_scripted(fresh_script());

    let mut rendered = Vec::new();
    write_status_text(&document, &mut rendered);
    let text = String::from_utf8(rendered).expect("utf-8");
    for row in [
        "provider record",
        "linux binary",
        "credential",
        "linux service",
        "lifecycle task",
        "capacity",
        "docker",
    ] {
        assert!(
            text.contains(row),
            "the report must carry a {row} row:\n{text}"
        );
    }
    assert!(text.contains(AVAILABILITY_NOTE), "{text}");
}

#[test]
fn list_names_every_distribution_and_says_which_are_managed() {
    let journal = Journal::default();
    let (host, _) = wrap(
        ScriptedRunner::new().always(
            "--list --verbose",
            ok("  NAME              STATE           VERSION\n\
                * Ubuntu            Running         2\n  \
                  Debian GNU Linux  Stopped         2\n  \
                  Legacy            Stopped         1\n"),
        ),
        &journal,
    );
    let paths = AppPaths::default();
    write_record(&paths, version());

    let mut out = Vec::new();
    list_with(&host, &paths, &mut out).expect("a readable machine");
    let text = String::from_utf8(out).expect("utf-8");

    assert!(
        text.contains(&format!(
            "Ubuntu  WSL2, Running, default (managed, runner-manager {})",
            version()
        )),
        "the managed one is named with the version this machine installed:\n{text}"
    );
    assert!(
        text.contains("Debian GNU Linux  WSL2, Stopped (not managed)"),
        "a name with spaces survives, exactly as WSL spells it:\n{text}"
    );
    assert!(
        text.contains("Legacy  WSL1, Stopped (not managed)"),
        "and a WSL1 distribution is listed rather than hidden, because `wsl install` \
         is the command that explains why it cannot be used:\n{text}"
    );
}

#[test]
fn one_unreadable_record_does_not_hide_the_machines_distributions() {
    let journal = Journal::default();
    let (host, _) = wrap(
        ScriptedRunner::new().always(
            "--list --verbose",
            ok("* Ubuntu   Running   2\n  Debian   Stopped   2\n"),
        ),
        &journal,
    );
    let paths = AppPaths::default();
    paths.put(DISTRIBUTION, "this is not a provider record".to_string());

    let mut out = Vec::new();
    list_with(&host, &paths, &mut out).expect("one bad file is not a failure of the listing");
    let text = String::from_utf8(out).expect("utf-8");

    assert!(
        text.contains("Ubuntu") && text.contains("record unreadable"),
        "the row says what is wrong with it rather than vanishing:\n{text}"
    );
    assert!(
        text.contains("Debian  WSL2, Stopped (not managed)"),
        "and every other distribution is still listed:\n{text}"
    );
}

#[test]
fn list_says_so_plainly_when_this_machine_has_no_distributions() {
    let journal = Journal::default();
    let (host, _) = wrap(
        ScriptedRunner::new().always("--list --verbose", ok("")),
        &journal,
    );
    let paths = AppPaths::default();
    let mut out = Vec::new();
    list_with(&host, &paths, &mut out).expect("an empty machine is not a failure");
    let text = String::from_utf8(out).expect("utf-8");
    assert!(text.contains("no WSL distributions installed"), "{text}");
}

#[test]
fn detach_removes_the_product_task_and_the_record_and_nothing_inside_linux() {
    let journal = Journal::default();
    let (host, _) = wrap(
        ScriptedRunner::new()
            .always("/XML ONE", ok(&our_task_xml(DISTRIBUTION)))
            .always("/FO CSV", ok("\"task\",\"N/A\",\"Running\"\n"))
            .always("/End", ok(""))
            .always("/Delete", ok("")),
        &journal,
    );
    let paths = AppPaths::default();
    write_record(&paths, version());

    let mut out = Vec::new();
    detach_with(&host, &paths, DISTRIBUTION, &mut out).expect("a clean detach");
    let text = String::from_utf8(out).expect("utf-8");

    journal.at("/End");
    journal.at("/Delete");
    assert!(
        read_record(&paths, DISTRIBUTION)
            .expect("a readable directory")
            .is_none(),
        "the record is removed"
    );

    journal.never("--distribution");
    journal.never("--exec");
    assert!(text.contains("Nothing inside Ubuntu was changed"), "{text}");
    assert!(
        text.contains("service uninstall") && text.contains("auth logout"),
        "and it names the commands an operator may run separately: {text}"
    );
}

#[test]
fn detach_is_convergent_over_a_host_that_was_never_managed() {
    let journal = Journal::default();
    let (host, _) = wrap(
        ScriptedRunner::new().always("/Query", refused("no such task")),
        &journal,
    );
    let paths = AppPaths::default();
    let mut out = Vec::new();
    detach_with(&host, &paths, DISTRIBUTION, &mut out).expect("nothing to do is not a failure");
    let text = String::from_utf8(out).expect("utf-8");
    assert!(text.contains("was not registered"), "{text}");
    assert!(text.contains("was not there"), "{text}");
    journal.never("/Delete");
}

#[test]
fn detach_refuses_a_foreign_task_and_removes_nothing() {
    let journal = Journal::default();
    let (host, _) = wrap(
        ScriptedRunner::new()
            .always("/XML ONE", ok(&foreign_task_xml()))
            .always("/FO CSV", ok("\"task\",\"N/A\",\"Ready\"\n")),
        &journal,
    );
    let paths = AppPaths::default();
    write_record(&paths, version());

    let mut out = Vec::new();
    let refusal =
        detach_with(&host, &paths, DISTRIBUTION, &mut out).expect_err("somebody else's task");
    assert_eq!(refusal.class(), Failure::Conflict);
    journal.never("/Delete");
    assert!(
        read_record(&paths, DISTRIBUTION)
            .expect("a readable directory")
            .is_some(),
        "and the record stays, so an operator can still see what this machine believed"
    );
}

#[test]
fn every_stage_has_a_distinct_label_so_a_failure_can_name_one() {
    let mut labels: Vec<&str> = Stage::ALL.iter().map(|stage| stage.label()).collect();
    assert_eq!(labels.len(), 8, "the eight numbered steps of the design");
    labels.sort_unstable();
    labels.dedup();
    assert_eq!(
        labels.len(),
        Stage::ALL.len(),
        "two stages must not share a name, or a failure cannot say which one it was"
    );

    for stage in Stage::ALL.iter().copied() {
        let prefix = stage_prefix(stage);
        if stage == Stage::Preflight {
            assert!(prefix.contains("nothing has been changed"), "{prefix}");
        } else {
            assert!(prefix.contains("safe to run"), "{prefix}");
            assert!(prefix.contains(stage.label()), "{prefix}");
        }
    }
}


// ---------------------------------------------------------------------------
// The selector
// ---------------------------------------------------------------------------

/// The selector of a command line, with the option accepted before and after
/// the subcommand.
fn selected_host(argv: &[&str]) -> Result<HostSelector, String> {
    let host = clap::Arg::new("host")
        .long("host")
        .global(true)
        .default_value("local")
        .value_parser(|raw: &str| HostSelector::parse(raw));
    let command = clap::Command::new("runner-manager")
        .arg(host)
        .subcommand(clap::Command::new("status"))
        .subcommand(clap::Command::new("repo").subcommand(clap::Command::new("list")));
    let matches = command
        .try_get_matches_from(argv)
        .map_err(|error| error.to_string())?;
    Ok(matches
        .get_one::<HostSelector>("host")
        .cloned()
        .expect("there is a default"))
}

#[test]
fn local_is_the_default_so_every_existing_invocation_is_unchanged() {
    let host = selected_host(&["runner-manager", "status"]).expect("an ordinary command");
    assert_eq!(host, HostSelector::Local);
    assert_eq!(host.distribution(), None);
    assert_eq!(host.to_text(), "local");

    let explicit = selected_host(&["runner-manager", "--host", "local", "status"])
        .expect("the default, spelled out");
    assert_eq!(explicit, HostSelector::Local);
}

#[test]
fn a_wsl_selector_carries_the_exact_name_however_it_is_spelled() {
    for name in [
        "Ubuntu",
        "Ubuntu-24.04",
        "Debian GNU Linux",
        "ubuntu",
        "openSUSE-Tumbleweed",
    ] {
        let host = selected_host(&["runner-manager", "--host", &format!("wsl:{name}"), "status"])
            .unwrap_or_else(|error| panic!("`wsl:{name}` must parse: {error}"));
        assert_eq!(host, HostSelector::Wsl(name.to_string()));
        assert_eq!(host.distribution(), Some(name));
        assert_eq!(host.to_text(), format!("wsl:{name}"));
    }
}

#[test]
fn the_selector_is_global_so_it_may_follow_the_subcommand() {
    let host = selected_host(&["runner-manager", "repo", "list", "--host=wsl:Ubuntu"])
        .expect("a global option after the subcommand");
    assert_eq!(host.distribution(), Some("Ubuntu"));
}

#[test]
fn an_unspellable_host_is_refused_with_a_sentence_that_names_both_forms() {
    let refusal = HostSelector::parse("ubuntu").expect_err("not a selector");
    assert!(refusal.contains("local"), "{refusal}");
    assert!(refusal.contains("wsl:"), "{refusal}");
    assert!(refusal.contains("wsl list"), "{refusal}");

    let empty = HostSelector::parse("wsl:").expect_err("no name after the prefix");
    assert!(empty.contains("Ubuntu"), "{empty}");

    assert!(
        selected_host(&["runner-manager", "--host", "kvm:box", "status"]).is_err(),
        "an unknown host kind is a usage error, not a silent local run"
    );
}

// ---------------------------------------------------------------------------
// The proxy
// ---------------------------------------------------------------------------

#[test]
fn the_proxy_forwards_the_original_arguments_and_removes_only_the_selector() {
    assert_eq!(
        forwarded_arguments(&spoken(&[
            "runner-manager",
            "--host",
            "wsl:Ubuntu",
            "repo",
            "list"
        ])),
        spoken(&["repo", "list"])
    );
    assert_eq!(
        forwarded_arguments(&spoken(&[
            "runner-manager",
            "repo",
            "list",
            "--host=wsl:Ubuntu"
        ])),
        spoken(&["repo", "list"])
    );

    // `--host-label` is an option of its own that shares five characters with
    // the selector.
    assert_eq!(
        forwarded_arguments(&spoken(&[
            "runner-manager",
            "--host=wsl:Ubuntu",
            "repo",
            "add",
            "owner/repo",
            "--host-label",
            "ivanpc",
            "--max-capacity",
            "4",
        ])),
        spoken(&[
            "repo",
            "add",
            "owner/repo",
            "--host-label",
            "ivanpc",
            "--max-capacity",
            "4"
        ])
    );

    assert_eq!(
        forwarded_arguments(&spoken(&[
            "runner-manager",
            "--data-dir",
            "/tmp/x",
            "--host",
            "wsl:Ubuntu",
            "status",
            "--json",
        ])),
        spoken(&["--data-dir", "/tmp/x", "status", "--json"])
    );
}

#[test]
fn an_argument_that_is_no_text_is_forwarded_in_its_place() {
    let arguments = vec![
        Some("runner-manager".to_string()),
        None,
        Some("--host".to_string()),
        None,
        Some("status".to_string()),
    ];
    assert_eq!(forwarded_positions(&arguments), vec![1, 4]);
}

#[test]
fn the_proxy_builds_the_exact_argument_vector_for_each_distribution() {
    for name in ["Ubuntu", "Debian GNU Linux", "Ubuntu-24.04"] {
        let plan = ProxyPlan::new(
            "C:\\Windows\\System32\\wsl.exe",
            name,
            validate_distribution_name(name).err(),
            DEFAULT_LINUX_DESTINATION,
            spoken(&["status", "--json"]),
        )
        .expect("a usable name");

        assert_eq!(plan.program(), "C:\\Windows\\System32\\wsl.exe");
        assert_eq!(
            *plan.arguments(),
            spoken(&[
                "--distribution",
                name,
                "--user",
                "root",
                "--exec",
                DEFAULT_LINUX_DESTINATION,
                "status",
                "--json",
            ])
        );
    }
}

#[test]
fn a_name_that_cannot_be_used_is_refused_before_anything_is_started() {
    let refusal = ProxyPlan::new(
        "wsl.exe",
        "Ubuntu\nDebian",
        validate_distribution_name("Ubuntu\nDebian").err(),
        DEFAULT_LINUX_DESTINATION,
        Vec::new(),
    )
    .expect_err("a name with a newline in it");
    assert_eq!(refusal.class(), Failure::InvalidArgument);
}

/// The body of a function, from its signature to the closing brace at the
/// indentation the signature was written at.
fn body_of(source: &str, signature: &str) -> String {
    let source = source.replace("\r\n", "\n");
    let start = source
        .find(signature)
        .unwrap_or_else(|| panic!("`{signature}` must exist for this test to mean anything"));
    let indentation: String = signature.chars().take_while(|c| *c == ' ').collect();
    let closing = format!("\n{indentation}}}\n");
    let rest = &source[start..];
    let end = rest
        .find(&closing)
        .unwrap_or_else(|| panic!("`{signature}` must be closed"));
    rest[..end].to_string()
}

#[test]
fn the_source_shape_helper_does_not_depend_on_line_endings() {
    let signature = "    fn sample(&self) -> u8 {";
    let lf = format!("impl Thing {{\n{signature}\n        1\n    }}\n}}\n");
    let crlf = lf.replace('\n', "\r\n");

    let from_lf = body_of(&lf, signature);
    let from_crlf = body_of(&crlf, signature);

    assert_eq!(
        from_lf, from_crlf,
        "a CRLF checkout must produce the same body as an LF one"
    );
    assert!(
        from_lf.contains("        1"),
        "the body must actually reach the statement inside it, not stop at the signature"
    );
}

#[test]
fn the_proxy_returns_the_childs_own_exit_code() {
    for expected in [0, 1, 7, 42] {
        assert_eq!(
            exit_code_of(Some(expected), None, 20),
            expected,
            "a proxied command's result is the child's, not this process's opinion of it"
        );
    }
}

#[test]
fn a_program_that_cannot_be_started_is_a_failure_and_not_a_silent_success() {
    let refusal = cannot_start("this-program-is-nowhere-on-this-machine", "not found");
    assert_eq!(refusal.class(), Failure::WslProvisioning);
    assert!(refusal
        .message()
        .contains("this-program-is-nowhere-on-this-machine"));
}

#[test]
fn a_child_killed_by_a_signal_is_reported_the_way_a_shell_reports_it() {
    assert_eq!(
        exit_code_of(None, Some(15), 20),
        143,
        "128 + SIGTERM, which is what every script reading $? already assumes; reporting \
         0 here would turn a killed job into a successful one"
    );
    assert_eq!(exit_code_of(None, None, 20), 20);
}

#[test]
fn the_two_windows_only_families_cannot_be_addressed_to_another_host() {
    for family in [CommandFamily::Wsl, CommandFamily::WslHost] {
        let refusal = refuse_a_command_that_cannot_be_proxied(family).expect_err("not proxyable");
        assert_eq!(refusal.class(), Failure::InvalidArgument);
        assert!(refusal.remedy().is_some(), "and it names what was meant");
    }
    assert!(
        refuse_a_command_that_cannot_be_proxied(CommandFamily::Other).is_ok(),
        "everything else is the Linux host's to answer"
    );
}

#[test]
fn a_sign_in_is_brokered_and_an_update_reinstalls() {
    assert_eq!(
        run_on_selected_host(CommandFamily::AuthLogin, None, None).expect("a route"),
        Route::BrokeredLogin
    );
    assert_eq!(
        run_on_selected_host(CommandFamily::Update, None, None).expect("a route"),
        Route::Reinstall
    );
    assert_eq!(
        run_on_selected_host(CommandFamily::Other, None, None).expect("a route"),
        Route::Forward
    );
    let off_windows = wsl_error(WslErrorKind::UnsupportedPlatform, "not on linux");
    assert_eq!(
        run_on_selected_host(CommandFamily::Other, Some(off_windows), None)
            .expect_err("no WSL here")
            .class(),
        Failure::UnsupportedHost
    );
    let unusable = validate_distribution_name("-d").err();
    assert_eq!(
        run_on_selected_host(CommandFamily::Other, None, unusable)
            .expect_err("no such name")
            .class(),
        Failure::InvalidArgument
    );
}

// ---------------------------------------------------------------------------
// The credential
// ---------------------------------------------------------------------------

#[test]
fn the_sink_delivers_to_auth_receive_for_the_start_mode_it_was_given() {
    let journal = Journal::default();
    let (host, runner) = wrap(fresh_script(), &journal);
    let mut sink = WslSecretSink::new(DISTRIBUTION, DEFAULT_LINUX_DESTINATION, StartAt::Boot);
    assert_eq!(sink.delivered(), 0);

    send_credential(&host, &mut sink, &credential_document(DISTRIBUTION))
        .expect("the receiver took it");
    assert_eq!(sink.delivered(), 1);

    let recorded = runner.recorded();
    let receive = recorded
        .iter()
        .find(|request| request.command_line().contains("auth receive"))
        .expect("the receive command ran");
    assert_eq!(
        receive.arguments,
        spoken(&[
            "--distribution",
            DISTRIBUTION,
            "--user",
            "root",
            "--exec",
            DEFAULT_LINUX_DESTINATION,
            "auth",
            "receive",
            "--start-at",
            "boot",
        ]),
        "the store `receive` writes is named on the command line; the document is not"
    );
    assert_eq!(
        String::from_utf8_lossy(&receive.stdin),
        credential_document(DISTRIBUTION)
    );
}

#[test]
fn a_receiver_that_refuses_is_a_different_failure_from_one_that_never_got_it() {
    let journal = Journal::default();
    let (host, _) = wrap(
        ScriptedRunner::new().always("auth receive", refused("the store is read-only")),
        &journal,
    );
    let mut sink = WslSecretSink::new(DISTRIBUTION, DEFAULT_LINUX_DESTINATION, StartAt::Login);
    assert_eq!(sink.start_at_token(), "login");
    let refusal = send_credential(&host, &mut sink, &credential_document(DISTRIBUTION))
        .expect_err("the receiver said no");
    assert!(
        matches!(refusal, SecretSinkError::Refused { .. }),
        "a store that refused needs a different remedy from a pipe that broke: {refusal:?}"
    );
    assert!(
        !format!("{refusal:?}").contains("ghu_"),
        "and it carries no part of the document: {refusal:?}"
    );
    assert_eq!(sink.delivered(), 0);
    let broken = sink
        .settle(&CommandEnd::CannotRun("no pipe".to_string()))
        .expect_err("it never got there");
    assert!(matches!(broken, SecretSinkError::Undeliverable { .. }));
}

#[test]
fn a_sign_in_asks_the_distribution_first_and_reports_no_credential() {
    let refused = brokered_login(
        LoginStep::Preflight,
        LoginEvent::Refused(wsl_error(WslErrorKind::NotWsl2, "WSL1")),
        None,
    );
    assert!(refused.next.is_err());
    let ready = brokered_login(
        LoginStep::Preflight,
        LoginEvent::Ready("Ubuntu".to_string()),
        None,
    );
    assert!(ready.said.contains("Signing in for the WSL host Ubuntu."));
    let step = ready.next.expect("it goes on");
    match &step {
        LoginStep::Broker(sink) => assert_eq!(sink.start_at_token(), "boot"),
        other => panic!("{other:?}"),
    }
    let done = brokered_login(step, LoginEvent::Issued("It renews itself.".to_string()), None);
    assert!(done
        .said
        .contains("Stored in Ubuntu's own machine credential store. It renews itself.\n"));
    assert!(matches!(done.next, Ok(LoginStep::SignedIn)));
    let asked = brokered_login(
        LoginStep::Preflight,
        LoginEvent::Ready("Ubuntu".to_string()),
        Some(StartAt::Login),
    );
    match asked.next.expect("it goes on") {
        LoginStep::Broker(sink) => assert_eq!(sink.start_at_token(), "login"),
        other => panic!("{other:?}"),
    }
}

// ---------------------------------------------------------------------------
// Releases and stages
// ---------------------------------------------------------------------------

#[test]
fn only_known_source_handover_releases_are_accepted() {
    for version in ["0.1.8", "0.3.2", "1.0.0"] {
        assert!(
            supports_cooperative_service_handover(&Some(version.to_string())),
            "{version} contains the source-watch handover"
        );
    }
    for version in [
        None,
        Some(""),
        Some("0.1.7"),
        Some("0.1.8-rc.1"),
        Some("0.1"),
        Some("release-0.3.2"),
    ] {
        assert!(
            !supports_cooperative_service_handover(&version.map(str::to_string)),
            "{version:?} must not be guessed safe"
        );
    }
}

#[test]
fn a_stage_keeps_the_class_and_remedy_of_its_failure() {
    let plain = in_stage(
        Stage::Binary,
        CliError::new(Failure::Conflict, "taken".to_string()),
    );
    assert_eq!(plain.class(), Failure::Conflict);
    assert!(plain.message().ends_with(": taken"));
    assert_eq!(
        plain.remedy(),
        Some("runner-manager wsl status --distribution <NAME>")
    );
    let named = in_stage(
        Stage::Binary,
        CliError::with_remedy(Failure::Conflict, "taken".to_string(), "move it"),
    );
    assert_eq!(named.remedy(), Some("move it"));
}

#[test]
fn a_task_of_this_product_is_not_foreign() {
    let task = |product_owned| {
        Some(RegisteredTask {
            product_owned,
            enabled: true,
            running: false,
            command: "wsl.exe".to_string(),
            arguments: String::new(),
        })
    };
    let found = |task| {
        let mut progress = Progress::begin();
        progress.step = InstallStep::QueryTask;
        a_plan().install(progress, InstallEvent::TaskFound(task)).next
    };
    for task in [None, task(true)] {
        let next = found(task).expect("nothing in the way");
        assert_eq!(next.step, InstallStep::ChooseTarget);
        assert!(next.foreign_detail().is_none());
    }
    let refusing = found(task(false)).expect("a refusal to spell out");
    assert_eq!(refusing.step, InstallStep::RefuseForeignTask);
    let detail = refusing.foreign_detail().expect("a task in the way");
    assert!(detail.contains("it starts `wsl.exe`"), "{detail}");
    let refused = a_plan()
        .install(refusing, InstallEvent::Spelled("t: somebody else's".to_string()))
        .next
        .expect_err("somebody else's");
    assert_eq!(refused.class(), Failure::Conflict);
    assert_eq!(
        refused.message(),
        "preflight failed, so nothing has been changed and no credential was issued: \
         t: somebody else's"
    );
}

fn a_plan() -> Plan {
    Plan {
        version: "1.2.3".to_string(),
        linux_binary: DEFAULT_LINUX_DESTINATION.to_string(),
        unit: "runner-manager.service".to_string(),
        assets: "https://example.invalid".to_string(),
        capacity: None,
    }
}

#[test]
fn the_record_holds_the_distribution_the_task_the_version_and_the_time() {
    let mut progress = Progress::begin();
    progress.readiness = Some(Readiness {
        name: "Ubuntu".to_string(),
        wsl_version: 2,
        default: true,
        architecture: "X86_64".to_string(),
        machine: "x86_64".to_string(),
        systemd: "running".to_string(),
    });
    progress.task_name = "the-task".to_string();
    let now = Moment {
        seconds: 7,
        nanos: 8,
    };
    let record = a_plan().record(&progress, now);
    assert_eq!(record.distribution, "Ubuntu");
    assert_eq!(record.task_name, "the-task");
    assert_eq!(record.installed_version, "1.2.3");
    assert_eq!(record.last_verified, now);
    let task = a_plan().registration(&progress);
    assert_eq!(task.distribution, "Ubuntu");
    assert_eq!(task.task_name, "the-task");
    assert_eq!(task.linux_binary, DEFAULT_LINUX_DESTINATION);
}

#[test]
fn every_question_inside_a_distribution_has_its_command() {
    let words = |question| probe_command(question, "/bin/rm", "u.service");
    assert_eq!(
        words(ProbeQuestion::Status),
        Some(spoken(&["/bin/rm", "status", "--json"]))
    );
    assert_eq!(
        words(ProbeQuestion::Enabled),
        Some(spoken(&["systemctl", "is-enabled", "u.service"]))
    );
    assert_eq!(
        words(ProbeQuestion::Active),
        Some(spoken(&["systemctl", "is-active", "u.service"]))
    );
    assert_eq!(
        words(ProbeQuestion::Docker),
        Some(spoken(&["docker", "info", "--format", "{{.ServerVersion}}"]))
    );
    assert_eq!(words(ProbeQuestion::Listed), None);
    assert_eq!(words(ProbeQuestion::Task), None);
}

#[test]
fn forwarding_what_was_forwarded_changes_nothing() {
    let typed = spoken(&["rm", "--host", "--host", "a", "--host=wsl:b", "status", "--host"]);
    let once = forwarded_arguments(&typed);
    assert_eq!(once, spoken(&["a", "status"]));
    let mut again = spoken(&["rm"]);
    again.extend(once.clone());
    assert_eq!(forwarded_arguments(&again), once);
}

#[test]
fn every_platform_failure_maps_onto_a_class_a_script_can_branch_on() {
    let cases = [
        (WslErrorKind::NotInstalled, Failure::NotFound),
        (WslErrorKind::NotWsl2, Failure::UnsupportedHost),
        (WslErrorKind::ForeignTask, Failure::Conflict),
        (WslErrorKind::DigestMismatch, Failure::UnusableResponse),
        (WslErrorKind::SecretInCommandLine, Failure::SecretStore),
        (WslErrorKind::TaskControl, Failure::WslProvisioning),
        (WslErrorKind::RecordSchema, Failure::LocalState),
    ];
    for (kind, class) in cases {
        let failure = wsl_failure(&wsl_error(kind, "the platform's own sentence"));
        assert_eq!(failure.class(), class, "{kind:?}");
        assert!(
            !failure.message().is_empty(),
            "and it carries the platform's own sentence"
        );
    }
}

// ---------------------------------------------------------------------------
// The hold
// ---------------------------------------------------------------------------

/// A systemd that answers with this word, and may fail to start a unit.
struct FakeSystemd {
    calls: Vec<Vec<String>>,
    report: String,
    start_fails: bool,
}

impl FakeSystemd {
    fn reporting(report: &str) -> Self {
        Self {
            calls: Vec::new(),
            report: report.to_string(),
            start_fails: false,
        }
    }

    /// Holds until the signal arrives.
    fn hold(&mut self, signal: &str) -> Result<String, Refusal> {
        let mut said = String::new();
        let mut step = dispatch_wsl_host("linux")?;
        while !matches!(step, HoldStep::Released) {
            let event = match systemctl_arguments(&step, UNIT) {
                Some(arguments) => {
                    let failed = self.start_fails && arguments[0] == "start";
                    let asked = arguments[0] == "is-system-running";
                    self.calls.push(arguments);
                    HoldEvent::Ran {
                        success: !failed,
                        stdout: if asked {
                            format!("{}\n", self.report).into_bytes()
                        } else {
                            Vec::new()
                        },
                        stderr: if failed {
                            b"Failed to start runner-manager.service.\n".to_vec()
                        } else {
                            Vec::new()
                        },
                    }
                }
                None => match &step {
                    HoldStep::Judge(word) => HoldEvent::Judged {
                        shown: word.clone(),
                        usable: matches!(word.as_str(), "running" | "degraded" | "starting"),
                    },
                    _ => HoldEvent::Stopped(HoldStop::Signal(signal.to_string())),
                },
            };
            let moved = hold(step, event, UNIT);
            said.push_str(&moved.said);
            step = moved.next?;
        }
        Ok(said)
    }
}

#[test]
fn the_hold_verifies_systemd_then_starts_the_unit_and_waits() {
    let mut systemd = FakeSystemd::reporting("running");
    let text = systemd.hold("SIGTERM").expect("a holdable distribution");

    assert_eq!(
        systemd.calls,
        vec![spoken(&["is-system-running"]), spoken(&["start", UNIT])],
        "verify, then start, and nothing else: systemd remains the daemon's supervisor \
         and the hold is not a second one"
    );
    assert!(text.contains("holding this distribution open"), "{text}");
    assert!(
        text.contains("SIGTERM received"),
        "and it says why it stopped: {text}"
    );
    assert!(
        text.contains("is left running"),
        "and that it did not take the daemon down with it: {text}"
    );
}

#[test]
fn the_hold_never_builds_a_shell_command() {
    assert_eq!(SYSTEMCTL, "systemctl");
    assert_eq!(
        systemctl_arguments(&HoldStep::Start, UNIT).expect("a command"),
        spoken(&["start", UNIT]),
        "an argument vector, so a unit name can never be read as shell syntax"
    );
    for shell in ["sh", "bash", "cmd", "cmd.exe", "powershell"] {
        assert_ne!(SYSTEMCTL, shell);
    }
}

#[test]
fn the_hold_refuses_a_distribution_without_systemd_and_starts_nothing() {
    let mut systemd = FakeSystemd::reporting("offline");
    let refusal = systemd.hold("SIGTERM").expect_err("no systemd");
    assert_eq!(refusal.class(), Failure::WslProvisioning);
    assert!(
        refusal.to_string().contains("not running systemd"),
        "{refusal}"
    );
    assert_eq!(
        systemd.calls,
        vec![spoken(&["is-system-running"])],
        "and it did not try to start a unit that cannot exist"
    );
}

#[test]
fn a_unit_that_will_not_start_is_reported_rather_than_held() {
    let mut systemd = FakeSystemd::reporting("running");
    systemd.start_fails = true;
    let refusal = systemd.hold("SIGTERM").expect_err("the unit failed");
    assert!(refusal.to_string().contains("Failed to start"), "{refusal}");
    assert_eq!(
        refusal.to_string(),
        "cannot start runner-manager.service: Failed to start runner-manager.service."
    );
    assert_eq!(refusal.class(), Failure::WslProvisioning);
}

#[test]
fn a_degraded_or_starting_system_is_still_held() {
    for word in ["degraded", "starting"] {
        let mut systemd = FakeSystemd::reporting(word);
        systemd
            .hold("SIGHUP")
            .unwrap_or_else(|error| panic!("`{word}` must be held: {error}"));
        assert_eq!(systemd.calls.len(), 2, "{word}");
    }
}

#[test]
fn the_hold_is_refused_off_linux() {
    assert!(dispatch_wsl_host("linux").is_ok());
    for os in ["windows", "macos"] {
        let refusal = dispatch_wsl_host(os).expect_err("not Linux");
        assert_eq!(refusal.class(), Failure::UnsupportedHost);
        assert!(refusal.message().contains(os));
    }
}

#[test]
fn a_systemctl_that_cannot_be_run_is_named() {
    let moved = hold(
        HoldStep::AskState,
        HoldEvent::CannotRun("not found".to_string()),
        UNIT,
    );
    assert_eq!(
        moved.next.expect_err("nothing to run").message(),
        "cannot run `systemctl` in this distribution: not found"
    );
    let moved = hold(
        HoldStep::AskState,
        HoldEvent::Ran {
            success: false,
            stdout: b" \n".to_vec(),
            stderr: b"  Failed to \xff connect \n".to_vec(),
        },
        UNIT,
    );
    match moved.next.expect("an answer") {
        HoldStep::Judge(word) => assert_eq!(word, "Failed to \u{fffd} connect"),
        other => panic!("{other:?}"),
    }
}

// ---------------------------------------------------------------------------
// The watchdog
// ---------------------------------------------------------------------------

fn heartbeat(observed_at: i64, generation: Option<u64>, active: u32) -> Option<Heartbeat> {
    Some(Heartbeat {
        observed_at: moment(observed_at),
        acknowledged_generation: generation,
        local_active_attempts: Some(active),
        unmanaged_runner_services: Some(0),
    })
}

#[test]
fn only_distinct_idle_heartbeats_for_the_current_drain_are_counted() {
    let mut tracker = Tracker::new();
    let first_at = 1_800_000_000;
    let before_drain = heartbeat(first_at, None, 0);
    update_zero_heartbeats(&mut tracker, &before_drain, 7);
    assert_eq!(tracker.zero_heartbeats, 0);

    let first = heartbeat(first_at + 1, Some(7), 0);
    update_zero_heartbeats(&mut tracker, &first, 7);
    update_zero_heartbeats(&mut tracker, &first, 7);
    assert_eq!(tracker.zero_heartbeats, 1);

    let second = heartbeat(first_at + 2, Some(7), 0);
    update_zero_heartbeats(&mut tracker, &second, 7);
    assert_eq!(tracker.zero_heartbeats, 2);
}

#[test]
fn active_work_or_another_generation_resets_the_idle_proof() {
    let mut tracker = Tracker::new();
    let now = 1_800_000_000;
    update_zero_heartbeats(&mut tracker, &heartbeat(now, Some(9), 0), 9);
    update_zero_heartbeats(&mut tracker, &heartbeat(now + 1, Some(9), 1), 9);
    assert_eq!(tracker.zero_heartbeats, 0);
    update_zero_heartbeats(&mut tracker, &heartbeat(now + 2, Some(8), 0), 9);
    assert_eq!(tracker.zero_heartbeats, 0);
    update_zero_heartbeats(&mut tracker, &heartbeat(now + 3, Some(9), 0), 9);
    update_zero_heartbeats(&mut tracker, &None, 9);
    assert_eq!(tracker.zero_heartbeats, 0);
}

fn facts(answered: bool, instant: u64) -> HostFacts {
    HostFacts {
        answered,
        task: Some(RegisteredTask {
            product_owned: true,
            enabled: true,
            running: true,
            command: String::new(),
            arguments: String::new(),
        }),
        wsl_version: Some(2),
        instant,
        millis: 1_800_000_000_000,
    }
}

fn page(runners: &[(&str, bool, bool)]) -> Option<InventoryPage> {
    Some(InventoryPage {
        truncated: false,
        missing: false,
        runners: runners
            .iter()
            .map(|(name, busy, online)| ListedRunner {
                name: name.to_string(),
                busy: *busy,
                online: *online,
            })
            .collect(),
    })
}

#[test]
fn only_managed_runners_are_counted_and_only_on_complete_pages() {
    let pages = vec![
        page(&[
            ("runner-manager-a", true, true),
            ("somebody-elses", true, true),
        ]),
        page(&[("runner-manager-b", false, true)]),
    ];
    assert_eq!(github_inventory(&pages), Some((1, 2)));
    assert_eq!(github_inventory(&Vec::new()), Some((0, 0)));
    assert_eq!(github_inventory(&vec![page(&[]), None]), None);
    let mut truncated = page(&[]).expect("a page");
    truncated.truncated = true;
    assert_eq!(github_inventory(&vec![Some(truncated)]), None);
    let mut missing = page(&[]).expect("a page");
    missing.missing = true;
    assert_eq!(github_inventory(&vec![Some(missing)]), None);
}

#[test]
fn a_distribution_that_does_not_answer_is_drained_and_judged() {
    let look = begin(Tracker::new(), &facts(false, 5_000_000_000));
    assert_eq!(look.watching.step, WatchStep::Request);
    assert_eq!(look.watching.tracker.failures, 1);
    assert_eq!(look.watching.tracker.generation, Some(1_800_000_000_000));
    let look = observe(look.watching, WatchEvent::Done);
    assert_eq!(look.watching.step, WatchStep::Claim);
    let look = observe(look.watching, WatchEvent::Done);
    assert!(look.watching.tracker.fence_held);
    let beat = heartbeat(1_800_000_000, Some(1_800_000_000_000), 0);
    let look = observe(look.watching, WatchEvent::Heard(beat));
    assert_eq!(look.watching.step, WatchStep::ReadInventory);
    assert_eq!(look.watching.tracker.zero_heartbeats, 1);
    let look = observe(look.watching, WatchEvent::Listed(vec![page(&[])]));
    assert_eq!(look.watching.tracker.zero_inventory_reads, 1);
    let look = observe(
        look.watching,
        WatchEvent::Clock {
            utc: moment(1_800_000_030),
            instant: 9_000_000_000,
        },
    );
    assert_eq!(look.watching.step, WatchStep::Decide);
    let evidence = look.watching.evidence.expect("evidence");
    assert_eq!(evidence.consecutive_probe_failures, 1);
    assert_eq!(evidence.failure_span, 4_000_000_000);
    assert_eq!(evidence.heartbeat_age, Some((30, 0)));
    assert_eq!(evidence.managed_busy_runners, Some(0));
    assert!(evidence.task_is_product_owned && evidence.distribution_is_wsl2);
    assert!(evidence.inventory_authorized && evidence.recovery_fence_held);
    assert!(evidence.failure_is_recoverable && !evidence.circuit_open);
    let look = observe(
        look.watching,
        WatchEvent::Decided {
            decision: RecoveryDecision::TerminateNamed,
            instant: 9_500_000_000,
        },
    );
    assert_eq!(look.watching.step, WatchStep::Recover);
    assert_eq!(
        look.published.expect("published").phase,
        RecoveryPhase::Recovering
    );
    assert_eq!(look.watching.tracker.recovery_attempts.len(), 1);
    let look = observe(
        look.watching,
        WatchEvent::Recovered {
            answers: true,
            utc: moment(1_800_000_100),
        },
    );
    assert_eq!(look.cleared, Some(1_800_000_000_000));
    assert_eq!(look.watching.tracker.failures, 0);
    assert_eq!(
        look.watching.tracker.last_recovered_at,
        Some(moment(1_800_000_100))
    );
}

#[test]
fn every_decision_is_published_with_its_reason() {
    let decide = |decision| {
        let look = begin(Tracker::new(), &facts(false, 1));
        let look = observe(look.watching, WatchEvent::Done);
        let look = observe(
            look.watching,
            WatchEvent::Held {
                by_recovery: true,
                generation: Some(3),
            },
        );
        assert!(!look.watching.tracker.fence_held);
        let look = observe(look.watching, WatchEvent::Heard(None));
        assert_eq!(look.watching.step, WatchStep::Weigh);
        let clock = WatchEvent::Clock {
            utc: moment(0),
            instant: 2,
        };
        let look = observe(look.watching, clock);
        let said = observe(
            look.watching,
            WatchEvent::Decided {
                decision,
                instant: 3,
            },
        )
        .published
        .expect("published");
        (said.phase, said.reason)
    };
    assert_eq!(
        decide(RecoveryDecision::Observe),
        (
            RecoveryPhase::Degraded,
            Some("waiting for the bounded failure threshold".to_string())
        )
    );
    assert_eq!(
        decide(RecoveryDecision::RequestDrain),
        (
            RecoveryPhase::Draining,
            Some("waiting for the guest drain acknowledgement".to_string())
        )
    );
    assert_eq!(
        decide(RecoveryDecision::Blocked("busy".to_string())),
        (RecoveryPhase::RecoveryBlocked, Some("busy".to_string()))
    );
}

#[test]
fn a_drain_that_cannot_be_asked_for_blocks_the_recovery() {
    let look = begin(Tracker::new(), &facts(false, 1));
    let look = observe(look.watching, WatchEvent::Failed);
    let said = look.published.expect("published");
    assert_eq!(said.phase, RecoveryPhase::RecoveryBlocked);
    assert_eq!(
        said.reason.as_deref(),
        Some("the drain request cannot be written")
    );
    let again = begin(look.watching.tracker, &facts(true, 2));
    assert_eq!(again.cleared, Some(1_800_000_000_000));
    assert_eq!(again.watching.step, WatchStep::Observed);
}

#[test]
fn the_circuit_forgets_what_is_over_an_hour_old() {
    let hour = 3_600_000_000_000;
    let mut tracker = Tracker::new();
    for attempt in [0, 10, 20] {
        tracker.recovery_attempts.push_back(attempt);
    }
    expire_circuit(&mut tracker, hour + 10);
    assert_eq!(tracker.recovery_attempts.len(), 2);
    expire_circuit(&mut tracker, hour + 10);
    assert_eq!(tracker.recovery_attempts.len(), 2);
    expire_circuit(&mut tracker, 2 * hour);
    assert_eq!(tracker.recovery_attempts.len(), 0);
}

#[test]
fn a_restart_probes_six_times_and_then_gives_up() {
    let mut step = RestartStep::Terminate;
    let mut waited = 0;
    let mut probes = 0;
    while !matches!(step, RestartStep::Over(_)) {
        waited += pause_seconds(step);
        if matches!(step, RestartStep::Probe(_)) {
            probes += 1;
        }
        step = recover_named(step, !matches!(step, RestartStep::Probe(_)));
    }
    assert_eq!((probes, waited), (6, 92));
    assert_eq!(step, RestartStep::Over(false));
    assert_eq!(
        recover_named(RestartStep::Probe(3), true),
        RestartStep::Over(true)
    );
    assert_eq!(
        recover_named(RestartStep::Terminate, false),
        RestartStep::Over(false)
    );
}

#[test]
fn a_drain_is_numbered_by_the_clock() {
    assert_eq!(generation_now(1_800_000_000_123), 1_800_000_000_123);
    assert_eq!(generation_now(0), 1);
    assert_eq!(generation_now(-5), 1);
}

#[test]
fn an_age_is_the_time_between_two_moments() {
    let at = |seconds, nanos| Moment { seconds, nanos };
    assert_eq!(age_of(at(10, 5), at(7, 6)), Some((2, 999_999_999)));
    assert_eq!(age_of(at(7, 6), at(7, 6)), Some((0, 0)));
    assert_eq!(age_of(at(7, 5), at(7, 6)), None);
    assert_eq!(moment(0).shown(), "1970-01-01 00:00:00 UTC");
}
