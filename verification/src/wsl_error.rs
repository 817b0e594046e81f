//! What can go wrong with a WSL host, sorted by what the operator has to do
//! about it.

use vstd::prelude::*;

use crate::failure;
use crate::failure::{CliError, ErrorView, Failure};

verus! {

/// The kinds of failure that reaching or setting up a WSL host can end in.
#[derive(Debug, Clone, Copy, PartialEq, Eq, Structural)]
pub enum WslErrorKind {
    /// This machine has no WSL.
    UnsupportedPlatform,
    /// The distribution's name cannot be used.
    InvalidName,
    /// The path inside the distribution cannot be used.
    InvalidDestination,
    /// No distribution of that name is installed.
    NotInstalled,
    /// There is no scheduled task of that name.
    NoSuchTask,
    /// Two rows claim the name.
    AmbiguousName,
    /// Two archives claim the target.
    AmbiguousArtifact,
    /// The scheduled task belongs to somebody else.
    ForeignTask,
    NotWsl2,
    NoRootAccess,
    UnsupportedArchitecture,
    SystemdUnavailable,
    NoSuchArtifact,
    UnreadableChecksums,
    UnreadableArchive,
    DigestMismatch,
    VersionMismatch,
    /// A secret was about to stand on a command line.
    SecretInCommandLine,
    Record,
    RecordSchema,
    NeedsElevation,
    Spawn,
    ChildControl,
    CommandFailed,
    TaskControl,
}

/// One failure of a WSL host.
#[derive(Debug, Clone)]
pub struct WslError {
    pub kind: WslErrorKind,
    pub message: String,
}

/// The class of a failure and the remedy that goes with it.
pub open spec fn class_of(kind: WslErrorKind) -> (Failure, Option<Seq<char>>) {
    match kind {
        WslErrorKind::UnsupportedPlatform => (Failure::UnsupportedHost, None),
        WslErrorKind::InvalidName | WslErrorKind::InvalidDestination => (
            Failure::InvalidArgument,
            Some("runner-manager wsl list"@),
        ),
        WslErrorKind::NotInstalled => (Failure::NotFound, Some("runner-manager wsl list"@)),
        WslErrorKind::NoSuchTask => (Failure::NotFound, None),
        WslErrorKind::AmbiguousName | WslErrorKind::AmbiguousArtifact => (Failure::Conflict, None),
        WslErrorKind::ForeignTask => (
            Failure::Conflict,
            Some("taskschd.msc   (inspect it, then rename or remove it yourself)"@),
        ),
        WslErrorKind::NotWsl2 | WslErrorKind::NoRootAccess | WslErrorKind::UnsupportedArchitecture
        | WslErrorKind::SystemdUnavailable | WslErrorKind::NoSuchArtifact => (
            Failure::UnsupportedHost,
            None,
        ),
        WslErrorKind::UnreadableChecksums | WslErrorKind::UnreadableArchive
        | WslErrorKind::DigestMismatch | WslErrorKind::VersionMismatch => (
            Failure::UnusableResponse,
            None,
        ),
        WslErrorKind::SecretInCommandLine => (Failure::SecretStore, None),
        WslErrorKind::Record | WslErrorKind::RecordSchema => (Failure::LocalState, None),
        WslErrorKind::NeedsElevation => (
            Failure::WslProvisioning,
            Some("run this command from an elevated prompt"@),
        ),
        WslErrorKind::Spawn | WslErrorKind::ChildControl | WslErrorKind::CommandFailed
        | WslErrorKind::TaskControl => (Failure::WslProvisioning, None),
    }
}

/// How a WSL failure is reported.
pub open spec fn reported(source: WslError) -> ErrorView {
    ErrorView {
        class: class_of(source.kind).0,
        message: source.message@,
        remedy: class_of(source.kind).1,
    }
}

/// Reports a WSL failure by what the operator has to do about it.
pub fn wsl_failure(source: &WslError) -> (failed: CliError)
    ensures
        failed@ == reported(*source),
{
    let message = source.message.clone();
    match source.kind {
        WslErrorKind::UnsupportedPlatform => CliError::new(Failure::UnsupportedHost, message),
        WslErrorKind::InvalidName | WslErrorKind::InvalidDestination => CliError::with_remedy(
            Failure::InvalidArgument,
            message,
            "runner-manager wsl list",
        ),
        WslErrorKind::NotInstalled => CliError::with_remedy(
            Failure::NotFound,
            message,
            "runner-manager wsl list",
        ),
        WslErrorKind::NoSuchTask => CliError::new(Failure::NotFound, message),
        WslErrorKind::AmbiguousName | WslErrorKind::AmbiguousArtifact => CliError::new(
            Failure::Conflict,
            message,
        ),
        WslErrorKind::ForeignTask => CliError::with_remedy(
            Failure::Conflict,
            message,
            "taskschd.msc   (inspect it, then rename or remove it yourself)",
        ),
        WslErrorKind::NotWsl2 | WslErrorKind::NoRootAccess | WslErrorKind::UnsupportedArchitecture
        | WslErrorKind::SystemdUnavailable | WslErrorKind::NoSuchArtifact => CliError::new(
            Failure::UnsupportedHost,
            message,
        ),
        WslErrorKind::UnreadableChecksums | WslErrorKind::UnreadableArchive
        | WslErrorKind::DigestMismatch | WslErrorKind::VersionMismatch => CliError::new(
            Failure::UnusableResponse,
            message,
        ),
        WslErrorKind::SecretInCommandLine => CliError::new(Failure::SecretStore, message),
        WslErrorKind::Record | WslErrorKind::RecordSchema => CliError::new(
            Failure::LocalState,
            message,
        ),
        WslErrorKind::NeedsElevation => CliError::with_remedy(
            Failure::WslProvisioning,
            message,
            "run this command from an elevated prompt",
        ),
        WslErrorKind::Spawn | WslErrorKind::ChildControl | WslErrorKind::CommandFailed
        | WslErrorKind::TaskControl => CliError::new(Failure::WslProvisioning, message),
    }
}

/// A failure is sorted by what the operator has to do: a host that is not
/// eligible, an argument to correct, something that is not there, something to
/// settle by hand, an answer that will not do, a secret to keep, a local file, or
/// something to fix before running the command again. The words are those of the
/// failure.
pub proof fn law_a_failure_is_sorted_by_what_there_is_to_do(source: WslError)
    ensures
        ({
            let said = reported(source);
            let kind = source.kind;
            &&& said.message == source.message@
            &&& said.class == Failure::UnsupportedHost <==> kind
                == WslErrorKind::UnsupportedPlatform || kind == WslErrorKind::NotWsl2 || kind
                == WslErrorKind::NoRootAccess || kind == WslErrorKind::UnsupportedArchitecture
                || kind == WslErrorKind::SystemdUnavailable || kind
                == WslErrorKind::NoSuchArtifact
            &&& said.class == Failure::InvalidArgument <==> kind == WslErrorKind::InvalidName
                || kind == WslErrorKind::InvalidDestination
            &&& said.class == Failure::NotFound <==> kind == WslErrorKind::NotInstalled || kind
                == WslErrorKind::NoSuchTask
            &&& said.class == Failure::Conflict <==> kind == WslErrorKind::ForeignTask || kind
                == WslErrorKind::AmbiguousName || kind == WslErrorKind::AmbiguousArtifact
            &&& said.class == Failure::UnusableResponse <==> kind
                == WslErrorKind::UnreadableChecksums || kind == WslErrorKind::UnreadableArchive
                || kind == WslErrorKind::DigestMismatch || kind == WslErrorKind::VersionMismatch
            &&& said.class == Failure::SecretStore <==> kind == WslErrorKind::SecretInCommandLine
            &&& said.class == Failure::LocalState <==> kind == WslErrorKind::Record || kind
                == WslErrorKind::RecordSchema
            &&& said.class == Failure::WslProvisioning <==> kind == WslErrorKind::NeedsElevation
                || kind == WslErrorKind::Spawn || kind == WslErrorKind::ChildControl || kind
                == WslErrorKind::CommandFailed || kind == WslErrorKind::TaskControl
            &&& said.remedy == (if kind == WslErrorKind::InvalidName || kind
                == WslErrorKind::InvalidDestination || kind == WslErrorKind::NotInstalled {
                Some("runner-manager wsl list"@)
            } else if kind == WslErrorKind::ForeignTask {
                Some("taskschd.msc   (inspect it, then rename or remove it yourself)"@)
            } else if kind == WslErrorKind::NeedsElevation {
                Some("run this command from an elevated prompt"@)
            } else {
                None
            })
        }),
{
}

} // verus!
