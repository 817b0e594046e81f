//! Where release assets are read from, and which overrides of that are trusted.

use vstd::prelude::*;

use crate::failure;
use crate::failure::{CliError, ErrorView, Failure};
use crate::release::AssetSource;
use crate::text;
use crate::text::{starts_with, trim_trailing};

verus! {

/// Points the update at another release origin, or at a directory of assets.
///
/// What this redirects is the source of an executable, so an `http(s)` value
/// must be a loopback origin. Any other value names a local directory that
/// holds the assets flat.
pub const UPDATE_BASE_URL_VARIABLE: &'static str = "RUNNER_MANAGER_UPDATE_BASE_URL";

/// The host that a URL names, `None` when it names none, or why the text is no
/// URL.
pub uninterp spec fn url_host(raw: Seq<char>) -> Result<Option<Seq<char>>, Seq<char>>;

/// What a parse of a URL came to.
pub open spec fn host_view(parsed: Result<Option<String>, String>) -> Result<
    Option<Seq<char>>,
    Seq<char>,
> {
    match parsed {
        Ok(host) => Ok(text::opt_text(host)),
        Err(error) => Err(error@),
    }
}

/// Wraps `reqwest::Url::parse` and `Url::host_str`. Claimed of them: the host,
/// or the failure's text, depends on the text that is parsed alone. Which texts
/// are URLs is not stated here.
#[verifier::external_body]
fn parse_url_host(raw: &str) -> (parsed: Result<Option<String>, String>)
    ensures
        host_view(parsed) == url_host(raw@),
{
    match reqwest::Url::parse(raw) {
        Ok(url) => Ok(url.host_str().map(|host| host.to_string())),
        Err(error) => Err(error.to_string()),
    }
}

/// A release origin that is ready to use, or one whose host has still to be
/// shown to be this machine.
#[derive(Debug, Clone)]
pub enum Candidate {
    /// The published releases, under this base.
    Published { base: String },
    /// A directory of assets that an operator named.
    Directory { directory: String },
    /// An `http(s)` origin that an operator named, on this host.
    Origin { host: String },
}

/// What a [`Candidate`] is.
pub enum CandidateView {
    Published(Seq<char>),
    Directory(Seq<char>),
    Origin(Seq<char>),
}

/// The origin of a candidate.
pub open spec fn candidate_view(candidate: Candidate) -> CandidateView {
    match candidate {
        Candidate::Published { base } => CandidateView::Published(base@),
        Candidate::Directory { directory } => CandidateView::Directory(directory@),
        Candidate::Origin { host } => CandidateView::Origin(host@),
    }
}

/// Whether a text reads as an `http(s)` URL.
pub open spec fn is_http(raw: Seq<char>) -> bool {
    "http://"@.is_prefix_of(raw) || "https://"@.is_prefix_of(raw)
}

/// Where releases are published.
pub open spec fn published_base(repository: Seq<char>) -> Seq<char> {
    text::without_trailing(repository, '/') + "/releases/latest/download"@
}

/// Where the assets of one exact version are published.
pub open spec fn version_base(repository: Seq<char>, version: Seq<char>) -> Seq<char> {
    text::without_trailing(repository, '/') + "/releases/download/v"@ + version
}

/// Names where the assets of one exact version are published.
pub fn published_version(repository: &str, version: &str) -> (base: String)
    ensures
        base@ == version_base(repository@, version@),
{
    let mut base = trim_trailing(repository, '/');
    base.append("/releases/download/v");
    base.append(version);
    base
}

/// The refusal for an override that is neither a URL nor a directory.
pub open spec fn not_a_directory_error(raw: Seq<char>) -> ErrorView {
    failure::error_with(
        Failure::InvalidArgument,
        UPDATE_BASE_URL_VARIABLE@ + " is not an http(s) URL and not a directory: "@ + raw,
        "unset RUNNER_MANAGER_UPDATE_BASE_URL"@,
    )
}

/// The refusal for an override that is not usable as a URL.
pub open spec fn not_a_url_error(error: Seq<char>) -> ErrorView {
    failure::plain_error(
        Failure::InvalidArgument,
        UPDATE_BASE_URL_VARIABLE@ + " is not usable as a URL: "@ + error,
    )
}

/// The refusal for an override that names another machine.
pub open spec fn not_loopback_error(host: Seq<char>) -> ErrorView {
    failure::error_with(
        Failure::InvalidArgument,
        UPDATE_BASE_URL_VARIABLE@ + " points at "@ + host
            + ", which is not this machine. This variable redirects where a replacement executable is downloaded from, so it accepts only a loopback origin or a local directory."@,
        "unset RUNNER_MANAGER_UPDATE_BASE_URL"@,
    )
}

/// What a parsed `http(s)` override comes to.
pub open spec fn origin_of(parsed: Result<Option<Seq<char>>, Seq<char>>) -> Result<
    CandidateView,
    ErrorView,
> {
    match parsed {
        Err(error) => Err(not_a_url_error(error)),
        Ok(Some(host)) => Ok(CandidateView::Origin(host)),
        Ok(None) => Ok(CandidateView::Origin(Seq::empty())),
    }
}

/// The origin that an override asks for, before its host is judged.
pub open spec fn candidate_of(
    raw: Option<Seq<char>>,
    is_directory: bool,
    repository: Seq<char>,
) -> Result<CandidateView, ErrorView> {
    match raw {
        None => Ok(CandidateView::Published(published_base(repository))),
        Some(value) => if !is_http(value) {
            if is_directory {
                Ok(CandidateView::Directory(value))
            } else {
                Err(not_a_directory_error(value))
            }
        } else {
            origin_of(url_host(value))
        },
    }
}

/// Decides on a parsed `http(s)` override: the host to judge, or a refusal.
pub fn judge_url(parsed: Result<Option<String>, String>) -> (candidate: Result<
    Candidate,
    CliError,
>)
    ensures
        match candidate {
            Ok(found) => origin_of(host_view(parsed)) == Ok::<CandidateView, ErrorView>(
                candidate_view(found),
            ),
            Err(error) => origin_of(host_view(parsed)) == Err::<CandidateView, ErrorView>(error@),
        },
{
    match parsed {
        Err(error) => {
            let mut message = UPDATE_BASE_URL_VARIABLE.to_owned();
            message.append(" is not usable as a URL: ");
            message.append(error.as_str());
            Err(CliError::new(Failure::InvalidArgument, message))
        },
        Ok(Some(host)) => Ok(Candidate::Origin { host }),
        Ok(None) => Ok(Candidate::Origin { host: String::new() }),
    }
}

/// Reads the override, which is `raw` when it is set. `is_directory` says
/// whether the value names a directory that exists.
pub fn candidate(raw: Option<String>, is_directory: bool, repository: &str) -> (candidate: Result<
    Candidate,
    CliError,
>)
    ensures
        match candidate {
            Ok(found) => candidate_of(text::opt_text(raw), is_directory, repository@) == Ok::<
                CandidateView,
                ErrorView,
            >(candidate_view(found)),
            Err(error) => candidate_of(text::opt_text(raw), is_directory, repository@) == Err::<
                CandidateView,
                ErrorView,
            >(error@),
        },
{
    match raw {
        None => {
            let mut base = trim_trailing(repository, '/');
            base.append("/releases/latest/download");
            Ok(Candidate::Published { base })
        },
        Some(value) => {
            if !starts_with(value.as_str(), "http://") && !starts_with(value.as_str(), "https://") {
                if !is_directory {
                    let mut message = UPDATE_BASE_URL_VARIABLE.to_owned();
                    message.append(" is not an http(s) URL and not a directory: ");
                    message.append(value.as_str());
                    return Err(
                        CliError::with_remedy(
                            Failure::InvalidArgument,
                            message,
                            "unset RUNNER_MANAGER_UPDATE_BASE_URL",
                        ),
                    );
                }
                return Ok(Candidate::Directory { directory: value });
            }
            judge_url(parse_url_host(value.as_str()))
        },
    }
}

/// What a judged origin comes to: the base to fetch from, without the slashes
/// at its end, or a refusal.
pub open spec fn trusted_base(raw: Seq<char>, host: Seq<char>, loopback: bool) -> Result<
    Seq<char>,
    ErrorView,
> {
    if loopback {
        Ok(text::without_trailing(raw, '/'))
    } else {
        Err(not_loopback_error(host))
    }
}

/// Accepts an `http(s)` override whose host is this machine, and no other.
pub fn trust_origin(raw: &str, host: &str, loopback: bool) -> (source: Result<
    AssetSource,
    CliError,
>)
    ensures
        match source {
            Ok(AssetSource::Remote { base }) => trusted_base(raw@, host@, loopback) == Ok::<
                Seq<char>,
                ErrorView,
            >(base@),
            Ok(AssetSource::Local { .. }) => false,
            Err(error) => trusted_base(raw@, host@, loopback) == Err::<Seq<char>, ErrorView>(
                error@,
            ),
        },
{
    if !loopback {
        let mut message = UPDATE_BASE_URL_VARIABLE.to_owned();
        message.append(" points at ");
        message.append(host);
        message.append(
            ", which is not this machine. This variable redirects where a replacement executable is downloaded from, so it accepts only a loopback origin or a local directory.",
        );
        return Err(
            CliError::with_remedy(
                Failure::InvalidArgument,
                message,
                "unset RUNNER_MANAGER_UPDATE_BASE_URL",
            ),
        );
    }
    Ok(AssetSource::Remote { base: trim_trailing(raw, '/') })
}

/// What is said when an override is used.
pub open spec fn override_warning_text(raw: Seq<char>) -> Seq<char> {
    "warning: reading release assets from "@ + raw + " instead of GitHub, because "@
        + UPDATE_BASE_URL_VARIABLE@ + " is set."@
}

/// Says that the assets do not come from the published releases.
pub fn override_warning(raw: &str) -> (warning: String)
    ensures
        warning@ == override_warning_text(raw@),
{
    let mut warning = "warning: reading release assets from ".to_owned();
    warning.append(raw);
    warning.append(" instead of GitHub, because ");
    warning.append(UPDATE_BASE_URL_VARIABLE);
    warning.append(" is set.");
    warning
}

/// A replacement executable is fetched over the network from the published
/// releases or from this machine, and from nowhere else: an `http(s)` override
/// is only ever accepted for a loopback host.
pub proof fn law_no_remote_override_is_trusted(
    raw: Seq<char>,
    is_directory: bool,
    repository: Seq<char>,
    loopback: bool,
)
    requires
        is_http(raw),
    ensures
        candidate_of(Some(raw), is_directory, repository) matches Ok(found) ==> found is Origin,
        candidate_of(Some(raw), is_directory, repository) matches Ok(CandidateView::Origin(host))
            && trusted_base(raw, host, loopback) is Ok ==> loopback,
{
}

/// Without an override the assets come from the published releases of the
/// repository. An override that is no `http(s)` URL is the directory it names, or
/// refused; one that is comes down to the host that it names.
pub proof fn law_an_override_is_a_directory_or_a_host(
    raw: Seq<char>,
    is_directory: bool,
    repository: Seq<char>,
)
    ensures
        candidate_of(None, is_directory, repository) == Ok::<CandidateView, ErrorView>(
            CandidateView::Published(
                text::without_trailing(repository, '/') + "/releases/latest/download"@,
            ),
        ),
        ({
            let http = "http://"@.is_prefix_of(raw) || "https://"@.is_prefix_of(raw);
            let found = candidate_of(Some(raw), is_directory, repository);
            &&& !http && is_directory ==> found == Ok::<CandidateView, ErrorView>(
                CandidateView::Directory(raw),
            )
            &&& !http && !is_directory ==> (found matches Err(error) && error.class
                == Failure::InvalidArgument)
            &&& http ==> match url_host(raw) {
                Ok(Some(host)) => found == Ok::<CandidateView, ErrorView>(
                    CandidateView::Origin(host),
                ),
                Ok(None) => found == Ok::<CandidateView, ErrorView>(
                    CandidateView::Origin(Seq::empty()),
                ),
                Err(_) => found matches Err(error) && error.class == Failure::InvalidArgument,
            }
        }),
{
}

/// An origin is trusted exactly where its host is this machine, and assets are
/// then fetched from the very origin that was given, up to slashes at its end.
pub proof fn law_only_this_machine_is_trusted(raw: Seq<char>, host: Seq<char>, loopback: bool)
    ensures
        trusted_base(raw, host, loopback) is Ok <==> loopback,
        trusted_base(raw, host, loopback) matches Ok(base) ==> base.is_prefix_of(raw) && (
        base.len() > 0 ==> base.last() != '/') && forall|i: int|
            base.len() <= i < raw.len() ==> raw[i] == '/',
        trusted_base(raw, host, loopback) matches Err(error) ==> error.class
            == Failure::InvalidArgument,
{
    lemma_without_trailing(raw, '/');
}

/// What is cut off the end of a text is all of one character.
proof fn lemma_without_trailing(raw: Seq<char>, c: char)
    ensures
        ({
            let kept = text::without_trailing(raw, c);
            &&& kept.is_prefix_of(raw)
            &&& kept.len() > 0 ==> kept.last() != c
            &&& forall|i: int| kept.len() <= i < raw.len() ==> raw[i] == c
        }),
    decreases raw.len(),
{
    if raw.len() > 0 && raw.last() == c {
        let rest = raw.drop_last();
        let kept = text::without_trailing(raw, c);
        lemma_without_trailing(rest, c);
        assert(rest.subrange(0, kept.len() as int) =~= raw.subrange(0, kept.len() as int));
        assert forall|i: int| kept.len() <= i < raw.len() implies raw[i] == c by {
            if i < rest.len() {
                assert(rest[i] == raw[i]);
            }
        }
    }
}

/// An exact version is fetched from its own tag.
pub proof fn law_a_version_is_published_under_its_tag(repository: Seq<char>, version: Seq<char>)
    ensures
        version_base(repository, version) == text::without_trailing(repository, '/')
            + "/releases/download/v"@ + version,
{
}

} // verus!
