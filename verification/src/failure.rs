//! How a command fails: a class, a sentence, and where one helps, a remedy.

use vstd::prelude::*;

use crate::text;

verus! {

/// The class of a failure. A script branches on it; a person reads the message.
#[derive(Debug, Clone, Copy, PartialEq, Eq, Structural)]
pub enum Failure {
    /// Something no other class describes.
    Unclassified,
    /// The command line or a setting cannot be used as it stands.
    InvalidArgument,
    /// This machine, or the named host, is not one the product runs on.
    UnsupportedHost,
    /// This machine's own files or processes got in the way.
    LocalState,
    /// Something is in the way that this product does not own or must not race.
    Conflict,
    /// The named thing does not exist.
    NotFound,
    /// A secret store could not be read or written.
    SecretStore,
    /// A sign-in was declined or abandoned.
    AuthenticationDeclined,
    /// GitHub, or the release origin, could not be reached.
    GithubUnavailable,
    /// An answer arrived and cannot be used.
    UnusableResponse,
    /// This copy of the program cannot be updated in place.
    UpdateUnsupported,
    /// The update was tried and failed.
    UpdateFailed,
    /// Setting up or reaching a WSL host failed.
    WslProvisioning,
}

/// One failure, as it is reported.
#[derive(Debug, Clone)]
pub struct CliError {
    class: Failure,
    message: String,
    remedy: Option<String>,
}

/// What a failure says.
pub struct ErrorView {
    pub class: Failure,
    pub message: Seq<char>,
    pub remedy: Option<Seq<char>>,
}

impl View for CliError {
    type V = ErrorView;

    closed spec fn view(&self) -> ErrorView {
        ErrorView {
            class: self.class,
            message: self.message@,
            remedy: text::opt_text(self.remedy),
        }
    }
}

/// A failure with no remedy to offer.
pub open spec fn plain_error(class: Failure, message: Seq<char>) -> ErrorView {
    ErrorView { class, message, remedy: None }
}

/// A failure with the command to run next.
pub open spec fn error_with(class: Failure, message: Seq<char>, remedy: Seq<char>) -> ErrorView {
    ErrorView { class, message, remedy: Some(remedy) }
}

impl CliError {
    /// A failure with no remedy.
    pub fn new(class: Failure, message: String) -> (error: CliError)
        ensures
            error@ == plain_error(class, message@),
    {
        CliError { class, message, remedy: None }
    }

    /// A failure and the command that addresses it.
    pub fn with_remedy(class: Failure, message: String, remedy: &str) -> (error: CliError)
        ensures
            error@ == error_with(class, message@, remedy@),
    {
        CliError { class, message, remedy: Some(remedy.to_owned()) }
    }

    /// The class a script branches on.
    pub fn class(&self) -> (class: Failure)
        ensures
            class == self@.class,
    {
        self.class
    }

    /// The sentence a person reads.
    pub fn message(&self) -> (message: &str)
        ensures
            message@ == self@.message,
    {
        self.message.as_str()
    }

    /// What to try next, when there is something.
    pub fn remedy(&self) -> (remedy: Option<&str>)
        ensures
            match remedy {
                Some(text) => self@.remedy == Some(text@),
                None => self@.remedy is None,
            },
    {
        match &self.remedy {
            Some(text) => Some(text.as_str()),
            None => None,
        }
    }

    /// The failure as one text: its message, without the remedy.
    pub fn to_text(&self) -> (text: String)
        ensures
            text@ == self@.message,
    {
        self.message.clone()
    }
}

/// A failure says what it was made of: its class, its sentence, and a remedy
/// exactly where one was given.
pub proof fn law_a_failure_says_what_it_was_made_of(
    class: Failure,
    message: Seq<char>,
    remedy: Seq<char>,
)
    ensures
        plain_error(class, message).class == class && plain_error(class, message).message
            == message && plain_error(class, message).remedy is None,
        error_with(class, message, remedy).class == class && error_with(
            class,
            message,
            remedy,
        ).message == message && error_with(class, message, remedy).remedy == Some(remedy),
{
}

} // verus!
