//! Bringing an installation up to the newest release: what is decided, what is
//! said, and in which order things are done.

use std::cmp::Ordering;
use vstd::prelude::*;

use crate::channel::{Channel, Installation};
use crate::failure;
use crate::failure::{CliError, ErrorView, Failure};
use crate::paths;
use crate::paths::{same_file, HostPath};
use crate::release;
use crate::release::{compare_versions, display_path, AssetSource};
use crate::text;
use crate::text::{join, push_signed_decimal};

verus! {

// ---------------------------------------------------------------------------
// What is said first
// ---------------------------------------------------------------------------

/// What is known before anything is fetched.
pub open spec fn banner_text(
    running: Seq<char>,
    installation: Installation,
    source: AssetSource,
) -> Seq<char> {
    "runner-manager update\n  installed                 "@ + running
        + "\n  installed by              "@ + installation.channel.described() + " ("@
        + release::shown_path(installation.path.rendered@) + ")\n  release assets            "@
        + source.shown() + "\n"@
}

/// Writes what is known before anything is fetched.
pub fn write_banner(running: &str, installation: &Installation, source: &AssetSource, out: &mut String)
    ensures
        final(out)@ == old(out)@ + banner_text(running@, *installation, *source),
{
    let mut said = "runner-manager update\n  installed                 ".to_owned();
    said.append(running);
    said.append("\n  installed by              ");
    said.append(installation.channel.describe());
    said.append(" (");
    said.append(display_path(installation.path.rendered.as_str()).as_str());
    said.append(")\n  release assets            ");
    said.append(source.describe().as_str());
    said.append("\n");
    out.append(said.as_str());
}

/// The line that names the published version.
pub open spec fn published_text(version: Seq<char>) -> Seq<char> {
    "  published                 "@ + version + "\n"@
}

/// Writes the line that names the published version.
pub fn write_published(version: &str, out: &mut String)
    ensures
        final(out)@ == old(out)@ + published_text(version@),
{
    let mut said = "  published                 ".to_owned();
    said.append(version);
    said.append("\n");
    out.append(said.as_str());
}

// ---------------------------------------------------------------------------
// The steps of an update
// ---------------------------------------------------------------------------

/// One step of an update.
#[derive(Debug, Clone, Copy, PartialEq, Eq, Structural)]
pub enum UpdateStep {
    /// Download the archive, check it, and replace the binary.
    ReplaceBinary,
    /// Ask npm to install the published version.
    NpmInstall,
    /// Ask brew to refresh its taps.
    BrewUpdate,
    /// Ask brew to upgrade the formula.
    BrewUpgrade,
    /// Ask cargo to install the published version.
    CargoInstall,
    /// Say what it means for the running service.
    ReportService,
    /// Nothing is left to do.
    Done,
}

/// What was said, and what comes next.
#[derive(Debug)]
pub struct UpdateMove {
    pub said: String,
    pub next: Result<UpdateStep, CliError>,
}

/// What comes next, or the failure.
pub open spec fn step_view(next: Result<UpdateStep, CliError>) -> Result<UpdateStep, ErrorView> {
    match next {
        Ok(step) => Ok(step),
        Err(error) => Err(error@),
    }
}

/// The first step on a channel that can be updated.
pub open spec fn channel_step(channel: Channel) -> UpdateStep {
    match channel {
        Channel::Archive => UpdateStep::ReplaceBinary,
        Channel::Npm => UpdateStep::NpmInstall,
        Channel::Homebrew => UpdateStep::BrewUpdate,
        Channel::Cargo => UpdateStep::CargoInstall,
        Channel::SourceBuild | Channel::ServiceCopy => UpdateStep::Done,
    }
}

/// The first step, once the published version is known.
pub open spec fn first_step(
    installation: Installation,
    running: Seq<char>,
    version: Seq<char>,
    check: bool,
) -> Result<UpdateStep, ErrorView> {
    if release::version_order(version, running) != Ordering::Greater || check {
        Ok(UpdateStep::Done)
    } else {
        match installation.refused() {
            Some(refusal) => Err(refusal),
            None => Ok(channel_step(installation.channel)),
        }
    }
}

/// What a dry run says of a copy that would be refused.
pub open spec fn would_refuse_text(refusal: ErrorView) -> Seq<char> {
    let said = "`runner-manager update` would refuse here: "@ + refusal.message + "\n"@;
    match refusal.remedy {
        Some(remedy) => said + "  try: "@ + remedy + "\n"@,
        None => said,
    }
}

/// What a dry run says when there is something newer.
pub open spec fn check_text(version: Seq<char>, refusal: Option<ErrorView>) -> Seq<char> {
    "\n"@ + version + " is available. Nothing has been changed, because --check was given.\n"@ + (
    match refusal {
        None => "Install it with: runner-manager update\n"@,
        Some(problem) => would_refuse_text(problem),
    })
}

/// What is said before the first step.
pub open spec fn verdict_text(
    installation: Installation,
    running: Seq<char>,
    version: Seq<char>,
    check: bool,
) -> Seq<char> {
    match release::version_order(version, running) {
        Ordering::Equal => "\nrunner-manager "@ + running
            + " is the newest release. Nothing to do.\n"@,
        Ordering::Less => "\nThis host runs "@ + running + ", which is newer than the "@ + version
            + " the release publishes. Nothing to do; `update` never installs an older build over a newer one.\n"@,
        Ordering::Greater => if check {
            check_text(version, installation.refused())
        } else if installation.refused() is Some {
            Seq::empty()
        } else {
            "\n"@
        },
    }
}

/// Says what a dry run would have done.
fn describe_check(installation: &Installation, version: &str) -> (said: String)
    ensures
        said@ == check_text(version@, installation.refused()),
{
    let mut head = "\n".to_owned();
    head.append(version);
    head.append(" is available. Nothing has been changed, because --check was given.\n");
    match installation.refusal() {
        None => {
            head.append("Install it with: runner-manager update\n");
        },
        Some(problem) => {
            let mut tail = "`runner-manager update` would refuse here: ".to_owned();
            tail.append(problem.message());
            tail.append("\n");
            match problem.remedy() {
                Some(remedy) => {
                    tail.append("  try: ");
                    tail.append(remedy);
                    tail.append("\n");
                },
                None => {},
            }
            head.append(tail.as_str());
        },
    }
    head
}

/// Decides, once the published version is known: what to say, and the first
/// step. Whether this copy can be updated is decided before a dry run returns,
/// so that a dry run never promises what the command would refuse.
pub fn dispatch(installation: &Installation, running: &str, version: &str, check: bool) -> (next:
    UpdateMove)
    ensures
        next.said@ == verdict_text(*installation, running@, version@, check),
        step_view(next.next) == first_step(*installation, running@, version@, check),
{
    match compare_versions(version, running) {
        Ordering::Equal => {
            let mut said = "\nrunner-manager ".to_owned();
            said.append(running);
            said.append(" is the newest release. Nothing to do.\n");
            return UpdateMove { said, next: Ok(UpdateStep::Done) };
        },
        Ordering::Less => {
            let mut said = "\nThis host runs ".to_owned();
            said.append(running);
            said.append(", which is newer than the ");
            said.append(version);
            said.append(
                " the release publishes. Nothing to do; `update` never installs an older build over a newer one.\n",
            );
            return UpdateMove { said, next: Ok(UpdateStep::Done) };
        },
        Ordering::Greater => {},
    }
    if check {
        return UpdateMove {
            said: describe_check(installation, version),
            next: Ok(UpdateStep::Done),
        };
    }
    if let Some(problem) = installation.refusal() {
        return UpdateMove { said: String::new(), next: Err(problem) };
    }
    let step = match installation.channel {
        Channel::Archive => UpdateStep::ReplaceBinary,
        Channel::Npm => UpdateStep::NpmInstall,
        Channel::Homebrew => UpdateStep::BrewUpdate,
        Channel::Cargo => UpdateStep::CargoInstall,
        Channel::SourceBuild | Channel::ServiceCopy => UpdateStep::Done,
    };
    UpdateMove { said: "\n".to_owned(), next: Ok(step) }
}

// ---------------------------------------------------------------------------
// Package managers
// ---------------------------------------------------------------------------

/// A package manager's command line, and what to try by hand when it fails.
#[derive(Debug)]
pub struct ManagerCommand {
    pub program: &'static str,
    pub arguments: Vec<String>,
    pub remedy: &'static str,
}

/// What a [`ManagerCommand`] says.
pub struct CommandView {
    pub program: Seq<char>,
    pub arguments: Seq<Seq<char>>,
    pub remedy: Seq<char>,
}

impl View for ManagerCommand {
    type V = CommandView;

    open spec fn view(&self) -> CommandView {
        CommandView {
            program: self.program@,
            arguments: text::texts(self.arguments@),
            remedy: self.remedy@,
        }
    }
}

/// The command line of a step that a package manager performs. npm and cargo
/// are given the exact version; a formula is whatever its tap pins.
pub open spec fn command_of(step: UpdateStep, version: Seq<char>) -> Option<CommandView> {
    match step {
        UpdateStep::NpmInstall => Some(
            CommandView {
                program: "npm"@,
                arguments: seq![
                    "install"@,
                    "--global"@,
                    "@ivan-murzak/runner-manager@"@ + version,
                ],
                remedy: "npm install --global @ivan-murzak/runner-manager"@,
            },
        ),
        UpdateStep::BrewUpdate => Some(
            CommandView {
                program: "brew"@,
                arguments: seq!["update"@],
                remedy: "brew update && brew upgrade IvanMurzak/tap/runner-manager"@,
            },
        ),
        UpdateStep::BrewUpgrade => Some(
            CommandView {
                program: "brew"@,
                arguments: seq!["upgrade"@, "IvanMurzak/tap/runner-manager"@],
                remedy: "brew upgrade IvanMurzak/tap/runner-manager"@,
            },
        ),
        UpdateStep::CargoInstall => Some(
            CommandView {
                program: "cargo"@,
                arguments: seq![
                    "install"@,
                    "runner-manager"@,
                    "--version"@,
                    version,
                    "--locked"@,
                    "--force"@,
                ],
                remedy: "cargo install runner-manager --locked"@,
            },
        ),
        UpdateStep::ReplaceBinary | UpdateStep::ReportService | UpdateStep::Done => None,
    }
}

/// The command line of a step that a package manager performs.
pub fn manager_command(step: UpdateStep, version: &str) -> (command: Option<ManagerCommand>)
    ensures
        command_of(step, version@) == (match command {
            Some(found) => Some(found@),
            None => None,
        }),
{
    match step {
        UpdateStep::NpmInstall => {
            let mut package = "@ivan-murzak/runner-manager@".to_owned();
            package.append(version);
            let command = ManagerCommand {
                program: "npm",
                arguments: vec!["install".to_owned(), "--global".to_owned(), package],
                remedy: "npm install --global @ivan-murzak/runner-manager",
            };
            assert(command@.arguments == command_of(step, version@)->0.arguments);
            Some(command)
        },
        UpdateStep::BrewUpdate => {
            let command = ManagerCommand {
                program: "brew",
                arguments: vec!["update".to_owned()],
                remedy: "brew update && brew upgrade IvanMurzak/tap/runner-manager",
            };
            assert(command@.arguments == command_of(step, version@)->0.arguments);
            Some(command)
        },
        UpdateStep::BrewUpgrade => {
            let command = ManagerCommand {
                program: "brew",
                arguments: vec!["upgrade".to_owned(), "IvanMurzak/tap/runner-manager".to_owned()],
                remedy: "brew upgrade IvanMurzak/tap/runner-manager",
            };
            assert(command@.arguments == command_of(step, version@)->0.arguments);
            Some(command)
        },
        UpdateStep::CargoInstall => {
            let command = ManagerCommand {
                program: "cargo",
                arguments: vec![
                    "install".to_owned(),
                    "runner-manager".to_owned(),
                    "--version".to_owned(),
                    version.to_owned(),
                    "--locked".to_owned(),
                    "--force".to_owned(),
                ],
                remedy: "cargo install runner-manager --locked",
            };
            assert(command@.arguments == command_of(step, version@)->0.arguments);
            Some(command)
        },
        UpdateStep::ReplaceBinary | UpdateStep::ReportService | UpdateStep::Done => None,
    }
}

/// A command line as it is printed.
pub open spec fn command_line(command: CommandView) -> Seq<char> {
    command.program + " "@ + text::joined(command.arguments, " "@)
}

/// Prints a command line.
fn render_command(command: &ManagerCommand) -> (line: String)
    ensures
        line@ == command_line(command@),
{
    let mut line = command.program.to_owned();
    line.append(" ");
    line.append(join(&command.arguments, " ").as_str());
    line
}

/// What is said before a package manager runs.
pub open spec fn running_text(command: CommandView) -> Seq<char> {
    "Running: "@ + command_line(command) + "\n"@
}

/// Says which command is about to run.
pub fn announce(command: &ManagerCommand) -> (said: String)
    ensures
        said@ == running_text(command@),
{
    let mut said = "Running: ".to_owned();
    said.append(render_command(command).as_str());
    said.append("\n");
    said
}

/// How a package manager's run ended.
#[derive(Debug, Clone)]
pub enum ManagerEnd {
    Succeeded,
    Exited(i32),
    /// A signal ended it.
    Killed,
    /// The program is not on the path.
    NotFound,
    /// It could not be started, for this reason.
    CannotRun(String),
}

/// The failure that an end amounts to, when it is one.
pub open spec fn manager_failure(command: CommandView, end: ManagerEnd) -> Option<ErrorView> {
    match end {
        ManagerEnd::Succeeded => None,
        ManagerEnd::Exited(code) => Some(
            failure::error_with(
                Failure::UpdateFailed,
                "`"@ + command_line(command) + "` exited "@ + text::signed_decimal(code as int)
                    + ". The message above is "@ + command.program
                    + "'s own; nothing here can add to it."@,
                command.remedy,
            ),
        ),
        ManagerEnd::Killed => Some(
            failure::error_with(
                Failure::UpdateFailed,
                "`"@ + command_line(command) + "` was killed by a signal."@,
                command.remedy,
            ),
        ),
        ManagerEnd::NotFound => Some(
            failure::error_with(
                Failure::UpdateUnsupported,
                "this copy was installed by "@ + command.program + ", and "@ + command.program
                    + " is not on this PATH, so it cannot be asked to update it."@,
                command.remedy,
            ),
        ),
        ManagerEnd::CannotRun(error) => Some(
            failure::error_with(
                Failure::UpdateFailed,
                "cannot run "@ + command.program + ": "@ + error@,
                command.remedy,
            ),
        ),
    }
}

/// Turns the end of a package manager's run into a failure, when it is one.
pub fn judge_manager(command: &ManagerCommand, end: &ManagerEnd) -> (failed: Option<CliError>)
    ensures
        manager_failure(command@, *end) == (match failed {
            Some(error) => Some(error@),
            None => None,
        }),
{
    match end {
        ManagerEnd::Succeeded => None,
        ManagerEnd::Exited(code) => {
            let mut message = "`".to_owned();
            message.append(render_command(command).as_str());
            message.append("` exited ");
            push_signed_decimal(&mut message, *code);
            message.append(". The message above is ");
            message.append(command.program);
            message.append("'s own; nothing here can add to it.");
            Some(CliError::with_remedy(Failure::UpdateFailed, message, command.remedy))
        },
        ManagerEnd::Killed => {
            let mut message = "`".to_owned();
            message.append(render_command(command).as_str());
            message.append("` was killed by a signal.");
            Some(CliError::with_remedy(Failure::UpdateFailed, message, command.remedy))
        },
        ManagerEnd::NotFound => {
            let mut message = "this copy was installed by ".to_owned();
            message.append(command.program);
            message.append(", and ");
            message.append(command.program);
            message.append(" is not on this PATH, so it cannot be asked to update it.");
            Some(CliError::with_remedy(Failure::UpdateUnsupported, message, command.remedy))
        },
        ManagerEnd::CannotRun(error) => {
            let mut message = "cannot run ".to_owned();
            message.append(command.program);
            message.append(": ");
            message.append(error.as_str());
            Some(CliError::with_remedy(Failure::UpdateFailed, message, command.remedy))
        },
    }
}

/// What a package manager's step leads to.
pub open spec fn after_manager(step: UpdateStep, failed: Option<ErrorView>) -> Result<
    UpdateStep,
    ErrorView,
> {
    match (step, failed) {
        // brew reaches more than one repository when it refreshes, and a
        // failure there must not stop an upgrade that may still be possible.
        (UpdateStep::BrewUpdate, _) => Ok(UpdateStep::BrewUpgrade),
        (_, Some(error)) => Err(error),
        (_, None) => Ok(UpdateStep::ReportService),
    }
}

/// What is said after a package manager's step.
pub open spec fn manager_text(step: UpdateStep, failed: Option<ErrorView>) -> Seq<char> {
    let confirm = "\nConfirm with: runner-manager --version\n"@;
    match (step, failed) {
        (UpdateStep::BrewUpdate, Some(error)) => "warning: "@ + error.message + "\n"@,
        (UpdateStep::BrewUpdate, None) => Seq::empty(),
        (_, Some(_)) => Seq::empty(),
        (UpdateStep::BrewUpgrade, None) =>
        "\nIf brew reported nothing to upgrade, the tap has not caught up with the \nrelease yet. It is updated by the same release run, usually within minutes.\n"@
            + confirm,
        (_, None) => confirm,
    }
}

/// Moves on from a package manager's step.
pub fn finish_manager(step: UpdateStep, failed: Option<CliError>) -> (next: UpdateMove)
    ensures
        ({
            let problem = match failed {
                Some(error) => Some(error@),
                None => None,
            };
            &&& next.said@ == manager_text(step, problem)
            &&& step_view(next.next) == after_manager(step, problem)
        }),
{
    match (step, failed) {
        (UpdateStep::BrewUpdate, Some(error)) => {
            let mut said = "warning: ".to_owned();
            said.append(error.message());
            said.append("\n");
            UpdateMove { said, next: Ok(UpdateStep::BrewUpgrade) }
        },
        (UpdateStep::BrewUpdate, None) => UpdateMove {
            said: String::new(),
            next: Ok(UpdateStep::BrewUpgrade),
        },
        (_, Some(error)) => UpdateMove { said: String::new(), next: Err(error) },
        (UpdateStep::BrewUpgrade, None) => {
            let mut said =
                "\nIf brew reported nothing to upgrade, the tap has not caught up with the \nrelease yet. It is updated by the same release run, usually within minutes.\n".to_owned();
            said.append("\nConfirm with: runner-manager --version\n");
            UpdateMove { said, next: Ok(UpdateStep::ReportService) }
        },
        (_, None) => UpdateMove {
            said: "\nConfirm with: runner-manager --version\n".to_owned(),
            next: Ok(UpdateStep::ReportService),
        },
    }
}

// ---------------------------------------------------------------------------
// The archive channel
// ---------------------------------------------------------------------------

/// Says which asset is about to be downloaded.
pub fn write_downloading(asset: &str, out: &mut String)
    ensures
        final(out)@ == old(out)@ + ("Downloading "@ + asset@ + "\n"@),
{
    let mut said = "Downloading ".to_owned();
    said.append(asset);
    said.append("\n");
    out.append(said.as_str());
}

/// What is said once a binary is in place.
pub open spec fn installed_text(version: Seq<char>, destination: Seq<char>) -> Seq<char> {
    "Installed runner-manager "@ + version + " to "@ + release::shown_path(destination) + "\n"@
}

/// Moves on from the replacement of a binary.
pub fn finish_replacement(version: &str, destination: &str, failed: Option<CliError>) -> (next:
    UpdateMove)
    ensures
        match failed {
            Some(error) => next.said@ == Seq::<char>::empty() && step_view(next.next) == Err::<
                UpdateStep,
                ErrorView,
            >(error@),
            None => next.said@ == installed_text(version@, destination@) && step_view(next.next)
                == Ok::<UpdateStep, ErrorView>(UpdateStep::ReportService),
        },
{
    match failed {
        Some(error) => UpdateMove { said: String::new(), next: Err(error) },
        None => {
            let mut said = "Installed runner-manager ".to_owned();
            said.append(version);
            said.append(" to ");
            said.append(display_path(destination).as_str());
            said.append("\n");
            UpdateMove { said, next: Ok(UpdateStep::ReportService) }
        },
    }
}

/// The failure to fetch something over the network.
pub fn unreachable_release(url: &str, error: &str) -> (failed: CliError)
    ensures
        failed@ == failure::error_with(
            Failure::GithubUnavailable,
            "cannot fetch "@ + url@ + ": "@ + error@,
            "runner-manager update --check"@,
        ),
{
    let mut message = "cannot fetch ".to_owned();
    message.append(url);
    message.append(": ");
    message.append(error);
    CliError::with_remedy(Failure::GithubUnavailable, message, "runner-manager update --check")
}

/// The failure to read an asset out of a directory. Only the checksum document
/// comes with something to try.
pub fn unreadable_asset(asset: &str, directory: &str, error: &str, checksums: bool) -> (failed:
    CliError)
    ensures
        ({
            let message = "cannot read "@ + asset@ + " from "@ + release::shown_path(directory@)
                + ": "@ + error@;
            failed@ == if checksums {
                failure::error_with(
                    Failure::GithubUnavailable,
                    message,
                    "runner-manager update --check"@,
                )
            } else {
                failure::plain_error(Failure::GithubUnavailable, message)
            }
        }),
{
    let mut message = "cannot read ".to_owned();
    message.append(asset);
    message.append(" from ");
    message.append(display_path(directory).as_str());
    message.append(": ");
    message.append(error);
    if checksums {
        CliError::with_remedy(Failure::GithubUnavailable, message, "runner-manager update --check")
    } else {
        CliError::new(Failure::GithubUnavailable, message)
    }
}

/// The failure to write a download down.
pub fn unwritable_download(path: &str, error: &str) -> (failed: CliError)
    ensures
        failed@ == failure::plain_error(
            Failure::LocalState,
            "cannot write the downloaded archive to "@ + release::shown_path(path@) + ": "@
                + error@,
        ),
{
    let mut message = "cannot write the downloaded archive to ".to_owned();
    message.append(display_path(path).as_str());
    message.append(": ");
    message.append(error);
    CliError::new(Failure::LocalState, message)
}

/// The failure to read a download back.
pub fn unreadable_download(path: &str, error: &str) -> (failed: CliError)
    ensures
        failed@ == failure::plain_error(
            Failure::LocalState,
            "cannot read the downloaded archive at "@ + release::shown_path(path@)
                + " back to check it: "@ + error@,
        ),
{
    let mut message = "cannot read the downloaded archive at ".to_owned();
    message.append(display_path(path).as_str());
    message.append(" back to check it: ");
    message.append(error);
    CliError::new(Failure::LocalState, message)
}

// ---------------------------------------------------------------------------
// What it means for the service
// ---------------------------------------------------------------------------

/// Where the service on this machine takes its binary from.
#[derive(Debug, Clone)]
pub enum ServiceSource {
    /// There is no registration, or none that can be read.
    Unregistered,
    /// It runs a copy of the binary that was just replaced.
    ThisBinary,
    /// It runs a copy of another binary.
    Elsewhere(String),
    /// It runs a binary directly, without a copy of its own.
    Direct,
}

/// Where the service takes its binary from, given what its registration
/// recorded.
pub open spec fn source_of_service(
    recorded: Option<Option<HostPath>>,
    installed: HostPath,
    recorded_resolved: Option<HostPath>,
    installed_resolved: Option<HostPath>,
) -> ServiceSource {
    match recorded {
        None => ServiceSource::Unregistered,
        Some(None) => ServiceSource::Direct,
        Some(Some(path)) => if paths::names_same_file(
            path.components(),
            installed.components(),
            paths::opt_components(recorded_resolved),
            paths::opt_components(installed_resolved),
        ) {
            ServiceSource::ThisBinary
        } else {
            ServiceSource::Elsewhere(path.rendered)
        },
    }
}

/// Works out where the service takes its binary from. `recorded` is the
/// registration's source, when there is a registration that can be read.
pub fn service_source(
    recorded: &Option<Option<HostPath>>,
    installed: &HostPath,
    recorded_resolved: &Option<HostPath>,
    installed_resolved: &Option<HostPath>,
) -> (source: ServiceSource)
    ensures
        source == source_of_service(
            *recorded,
            *installed,
            *recorded_resolved,
            *installed_resolved,
        ),
{
    match recorded {
        None => ServiceSource::Unregistered,
        Some(None) => ServiceSource::Direct,
        Some(Some(path)) => {
            if same_file(path, installed, recorded_resolved, installed_resolved) {
                ServiceSource::ThisBinary
            } else {
                ServiceSource::Elsewhere(path.rendered.clone())
            }
        },
    }
}

/// What is said about the service.
pub open spec fn consequence_text(source: ServiceSource, version: Seq<char>) -> Seq<char> {
    match source {
        ServiceSource::Unregistered => Seq::empty(),
        ServiceSource::ThisBinary =>
        "\nThe service runs its own copy of this binary. It will finish every job it is holding, replace that copy with "@
            + version
            + ", and be restarted by the service manager. Nothing else is needed.\n"@,
        ServiceSource::Elsewhere(path) => "\nThe service was installed from "@
            + release::shown_path(path@)
            + ", not from the binary just replaced, so it will keep running the version there. Re-register it from this one:\n  runner-manager service install\n"@,
        ServiceSource::Direct =>
        "\nThis host's service registration names a binary directly rather than a copy this product owns, so it cannot pick up "@
            + version + " by itself. Re-register it:\n  runner-manager service install\n"@,
    }
}

/// Says what the service will do about the binary that just changed. Never a
/// failure: the update has succeeded.
pub fn report_service_consequence(source: &ServiceSource, version: &str, out: &mut String)
    ensures
        final(out)@ == old(out)@ + consequence_text(*source, version@),
{
    let mut said = String::new();
    match source {
        ServiceSource::Unregistered => {},
        ServiceSource::ThisBinary => {
            said =
            "\nThe service runs its own copy of this binary. It will finish every job it is holding, replace that copy with ".to_owned();
            said.append(version);
            said.append(", and be restarted by the service manager. Nothing else is needed.\n");
        },
        ServiceSource::Elsewhere(path) => {
            said = "\nThe service was installed from ".to_owned();
            said.append(display_path(path.as_str()).as_str());
            said.append(
                ", not from the binary just replaced, so it will keep running the version there. Re-register it from this one:\n  runner-manager service install\n",
            );
        },
        ServiceSource::Direct => {
            said =
            "\nThis host's service registration names a binary directly rather than a copy this product owns, so it cannot pick up ".to_owned();
            said.append(version);
            said.append(" by itself. Re-register it:\n  runner-manager service install\n");
        },
    }
    out.append(said.as_str());
}

// ---------------------------------------------------------------------------
// Laws
// ---------------------------------------------------------------------------

/// Nothing is ever installed over a build that is as new or newer, and nothing
/// is installed when either version cannot be read.
pub proof fn law_update_never_installs_an_older_build(
    installation: Installation,
    running: Seq<char>,
    version: Seq<char>,
    check: bool,
)
    requires
        first_step(installation, running, version, check) != Ok::<UpdateStep, ErrorView>(
            UpdateStep::Done,
        ),
    ensures
        release::version_of(version) is Some,
        release::version_of(running) is Some,
        release::later(release::version_of(version)->0, release::version_of(running)->0),
{
}

/// A dry run does nothing, and it promises an update exactly where the command
/// would perform one: where the command would refuse, it says so in the
/// command's own words.
pub proof fn law_a_dry_run_predicts_the_command(
    installation: Installation,
    running: Seq<char>,
    version: Seq<char>,
)
    requires
        release::version_order(version, running) == Ordering::Greater,
    ensures
        first_step(installation, running, version, true) == Ok::<UpdateStep, ErrorView>(
            UpdateStep::Done,
        ),
        verdict_text(installation, running, version, true) == check_text(
            version,
            match first_step(installation, running, version, false) {
                Ok(_) => None,
                Err(refusal) => Some(refusal),
            },
        ),
{
}

/// A checkout build and the service's private copy are refused whenever there
/// is something newer, and no other copy is.
pub proof fn law_only_copies_owned_by_others_are_refused(
    installation: Installation,
    running: Seq<char>,
    version: Seq<char>,
)
    requires
        release::version_order(version, running) == Ordering::Greater,
    ensures
        first_step(installation, running, version, false) is Err <==> (installation.channel
            == Channel::SourceBuild || installation.channel == Channel::ServiceCopy),
        first_step(installation, running, version, false) matches Err(refusal) ==> refusal.class
            == Failure::UpdateUnsupported,
{
}

/// How far a step is from the end.
pub open spec fn steps_left(step: UpdateStep) -> nat {
    match step {
        UpdateStep::BrewUpdate => 3,
        UpdateStep::BrewUpgrade | UpdateStep::NpmInstall | UpdateStep::CargoInstall
        | UpdateStep::ReplaceBinary => 2,
        UpdateStep::ReportService => 1,
        UpdateStep::Done => 0,
    }
}

/// An update always ends: every package manager's step that does not fail
/// leads closer to the end, by way of the report on the service.
pub proof fn law_every_update_ends(step: UpdateStep, version: Seq<char>, failed: Option<ErrorView>)
    requires
        command_of(step, version) is Some,
    ensures
        after_manager(step, failed) matches Ok(next) ==> steps_left(next) < steps_left(step)
            && next != UpdateStep::Done,
{
}

/// Whether a step runs this program.
pub open spec fn runs(step: UpdateStep, version: Seq<char>, program: Seq<char>) -> bool {
    command_of(step, version) matches Some(command) && command.program == program
}

/// Something newer is installed by whatever installed this copy: npm is asked for
/// an npm copy, brew for a Homebrew copy and cargo for a cargo copy, and a binary
/// is replaced only where no package manager owns it. npm and cargo are asked
/// for exactly the published version.
pub proof fn law_a_copy_is_updated_by_what_installed_it(
    installation: Installation,
    running: Seq<char>,
    version: Seq<char>,
)
    requires
        release::version_order(version, running) == Ordering::Greater,
    ensures
        ({
            let first = first_step(installation, running, version, false);
            &&& installation.channel == Channel::Npm ==> (first matches Ok(step) && runs(
                step,
                version,
                "npm"@,
            ) && command_of(step, version)->0.arguments == seq![
                "install"@,
                "--global"@,
                "@ivan-murzak/runner-manager@"@ + version,
            ])
            &&& installation.channel == Channel::Cargo ==> (first matches Ok(step) && runs(
                step,
                version,
                "cargo"@,
            ) && command_of(step, version)->0.arguments == seq![
                "install"@,
                "runner-manager"@,
                "--version"@,
                version,
                "--locked"@,
                "--force"@,
            ])
            &&& installation.channel == Channel::Homebrew ==> (first matches Ok(step) && runs(
                step,
                version,
                "brew"@,
            ) && command_of(step, version)->0.arguments == seq!["update"@])
            &&& installation.channel == Channel::Archive ==> first == Ok::<UpdateStep, ErrorView>(
                UpdateStep::ReplaceBinary,
            )
            &&& first matches Ok(step) ==> (step == UpdateStep::ReplaceBinary
                <==> installation.channel == Channel::Archive) && (runs(step, version, "npm"@)
                ==> installation.channel == Channel::Npm) && (runs(step, version, "cargo"@)
                ==> installation.channel == Channel::Cargo) && (runs(step, version, "brew"@)
                ==> installation.channel == Channel::Homebrew) && step != UpdateStep::Done && step
                != UpdateStep::ReportService
        }),
{
    reveal_strlit("npm");
    reveal_strlit("brew");
    reveal_strlit("cargo");
    assert("npm"@.len() == 3 && "brew"@.len() == 4 && "cargo"@.len() == 5);
}

/// brew is asked to upgrade once it was asked to refresh, whether or not it could
/// refresh, and the upgrade is of this formula.
pub proof fn law_brew_refreshes_and_then_upgrades(
    installation: Installation,
    running: Seq<char>,
    version: Seq<char>,
    failed: Option<ErrorView>,
)
    requires
        release::version_order(version, running) == Ordering::Greater,
        installation.channel == Channel::Homebrew,
    ensures
        ({
            let first = first_step(installation, running, version, false)->Ok_0;
            after_manager(first, failed) matches Ok(second) && runs(second, version, "brew"@)
                && command_of(second, version)->0.arguments == seq![
                "upgrade"@,
                "IvanMurzak/tap/runner-manager"@,
            ]
        }),
{
}

/// A text begins with what it was put together from.
proof fn lemma_begins(left: Seq<char>, right: Seq<char>)
    ensures
        left.is_prefix_of(left + right),
{
}

/// Nothing is done where nothing newer is published, and nothing is done in a dry
/// run; what is said tells the three cases apart.
pub proof fn law_only_something_newer_is_acted_on(
    installation: Installation,
    running: Seq<char>,
    version: Seq<char>,
    check: bool,
)
    ensures
        ({
            let order = release::version_order(version, running);
            let first = first_step(installation, running, version, check);
            let said = verdict_text(installation, running, version, check);
            &&& order != Ordering::Greater || check ==> first == Ok::<UpdateStep, ErrorView>(
                UpdateStep::Done,
            )
            &&& order == Ordering::Greater && !check ==> first != Ok::<UpdateStep, ErrorView>(
                UpdateStep::Done,
            )
            &&& order == Ordering::Equal ==> said == "\nrunner-manager "@ + running
                + " is the newest release. Nothing to do.\n"@
            &&& order == Ordering::Less ==> ("\nThis host runs "@ + running
                + ", which is newer than the "@ + version).is_prefix_of(said)
            &&& order == Ordering::Greater && check ==> ("\n"@ + version
                + " is available. Nothing has been changed, because --check was given.\n"@).is_prefix_of(
            said)
        }),
{
    let order = release::version_order(version, running);
    let said = verdict_text(installation, running, version, check);
    let less = "\nThis host runs "@ + running + ", which is newer than the "@ + version;
    let available = "\n"@ + version
        + " is available. Nothing has been changed, because --check was given.\n"@;
    if order == Ordering::Less {
        let rest =
            " the release publishes. Nothing to do; `update` never installs an older build over a newer one.\n"@;
        lemma_begins(less, rest);
        assert(said =~= less + rest);
    }
    if order == Ordering::Greater && check {
        let rest = match installation.refused() {
            None => "Install it with: runner-manager update\n"@,
            Some(problem) => would_refuse_text(problem),
        };
        lemma_begins(available, rest);
        assert(said =~= available + rest);
    }
}

/// A package manager's own failure ends the update as that failure, except for
/// the refresh before brew's upgrade; a step that did not fail goes on to the
/// service, or from the refresh to the upgrade.
pub proof fn law_a_package_managers_failure_ends_the_update(
    step: UpdateStep,
    failed: Option<ErrorView>,
)
    ensures
        step == UpdateStep::NpmInstall || step == UpdateStep::CargoInstall || step
            == UpdateStep::BrewUpgrade ==> (match failed {
            Some(error) => after_manager(step, failed) == Err::<UpdateStep, ErrorView>(error),
            None => after_manager(step, failed) == Ok::<UpdateStep, ErrorView>(
                UpdateStep::ReportService,
            ),
        }),
        after_manager(UpdateStep::BrewUpdate, failed) == Ok::<UpdateStep, ErrorView>(
            UpdateStep::BrewUpgrade,
        ),
        failed matches Some(error) ==> manager_text(UpdateStep::BrewUpdate, failed) == "warning: "@
            + error.message + "\n"@,
{
}

/// A package manager failed exactly where it did not succeed: one that is not
/// there cannot be asked, and every other end is a failed update. The remedy is
/// the command to run by hand.
pub proof fn law_only_success_is_no_failure(command: CommandView, end: ManagerEnd)
    ensures
        manager_failure(command, end) is None <==> end is Succeeded,
        manager_failure(command, end) matches Some(error) ==> error.remedy == Some(command.remedy)
            && (error.class == Failure::UpdateUnsupported <==> end is NotFound) && (error.class
            == Failure::UpdateFailed <==> !(end is NotFound)),
        end matches ManagerEnd::CannotRun(reason) ==> manager_failure(command, end)->0.message
            == "cannot run "@ + command.program + ": "@ + reason@,
{
}

/// The service takes its binary from nowhere without a registration, directly
/// where the registration names no copy, from this binary where what is recorded
/// is the file that was installed, and from what is recorded otherwise. Two paths
/// are the same file by where they lead, where both can be followed.
pub proof fn law_the_service_follows_the_file_it_was_registered_from(
    recorded: Option<Option<HostPath>>,
    installed: HostPath,
    recorded_resolved: Option<HostPath>,
    installed_resolved: Option<HostPath>,
)
    ensures
        ({
            let source = source_of_service(
                recorded,
                installed,
                recorded_resolved,
                installed_resolved,
            );
            &&& recorded is None ==> source is Unregistered
            &&& recorded matches Some(None) ==> source is Direct
            &&& recorded matches Some(Some(path)) ==> {
                let same = if recorded_resolved is Some && installed_resolved is Some {
                    recorded_resolved->0.components() == installed_resolved->0.components()
                } else {
                    path.components() == installed.components()
                };
                &&& same ==> source is ThisBinary
                &&& !same ==> source == ServiceSource::Elsewhere(path.rendered)
            }
        }),
{
}

/// What a package manager leaves unsaid is said: a refresh that failed is only
/// warned of, and an update that went through ends with how to confirm it. A
/// failure that ends the update says nothing here.
pub proof fn law_a_package_managers_step_is_commented(step: UpdateStep, failed: Option<ErrorView>)
    ensures
        step == UpdateStep::BrewUpdate ==> (failed matches Some(error) ==> manager_text(
            step,
            failed,
        ) == "warning: "@ + error.message + "\n"@),
        step == UpdateStep::BrewUpdate && failed is None ==> manager_text(step, failed).len() == 0,
        step != UpdateStep::BrewUpdate && failed is Some ==> manager_text(step, failed).len() == 0,
        step != UpdateStep::BrewUpdate && failed is None ==> exists|before: Seq<char>|
            manager_text(step, failed) == #[trigger] (before
                + "\nConfirm with: runner-manager --version\n"@) && (step
                != UpdateStep::BrewUpgrade ==> before.len() == 0) && (step
                == UpdateStep::BrewUpgrade ==> before.len() > 0),
{
    let confirm = "\nConfirm with: runner-manager --version\n"@;
    if step != UpdateStep::BrewUpdate && failed is None {
        if step == UpdateStep::BrewUpgrade {
            let before = "\nIf brew reported nothing to upgrade, the tap has not caught up with the \nrelease yet. It is updated by the same release run, usually within minutes.\n"@;
            reveal_strlit(
                "\nIf brew reported nothing to upgrade, the tap has not caught up with the \nrelease yet. It is updated by the same release run, usually within minutes.\n",
            );
            assert(manager_text(step, failed) == before + confirm);
        } else {
            assert(Seq::<char>::empty() + confirm =~= confirm);
        }
    }
}

} // verus!
