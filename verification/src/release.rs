//! Releases: which archive a host needs, which version it carries, and how a
//! published `SHA256SUMS` document is read.

use std::cmp::Ordering;
use vstd::prelude::*;

use crate::failure;
use crate::failure::{CliError, ErrorView, Failure};
use crate::text;
use crate::text::{
    chars_of, parse_u64, push_decimal, same_text, split_at_char, split_words, starts_with,
    strip_prefix, strip_suffix, to_ascii_lowercase,
};

verus! {

// ---------------------------------------------------------------------------
// Versions
// ---------------------------------------------------------------------------

/// The version `X.Y.Z` as three numbers; nothing else is a version.
pub open spec fn version_of(raw: Seq<char>) -> Option<(u64, u64, u64)> {
    let parts = text::pieces(raw, '.');
    if parts.len() == 3 && text::u64_of(parts[0]) is Some && text::u64_of(parts[1]) is Some && text::u64_of(
        parts[2],
    ) is Some {
        Some((text::u64_of(parts[0])->0, text::u64_of(parts[1])->0, text::u64_of(parts[2])->0))
    } else {
        None
    }
}

/// Reads a version. Pre-release and build metadata make it no version at all.
pub fn parse_version(raw: &str) -> (version: Option<(u64, u64, u64)>)
    ensures
        version == version_of(raw@),
{
    let parts = split_at_char(raw, '.');
    assert(parts@.len() == text::texts(parts@).len());
    if parts.len() != 3 {
        return None;
    }
    assert(text::texts(parts@)[0] == parts@[0]@);
    assert(text::texts(parts@)[1] == parts@[1]@);
    assert(text::texts(parts@)[2] == parts@[2]@);
    match (
        parse_u64(parts[0].as_str()),
        parse_u64(parts[1].as_str()),
        parse_u64(parts[2].as_str()),
    ) {
        (Some(major), Some(minor), Some(patch)) => Some((major, minor, patch)),
        _ => None,
    }
}

/// Whether one version is later than another, number by number.
pub open spec fn later(left: (u64, u64, u64), right: (u64, u64, u64)) -> bool {
    ||| left.0 > right.0
    ||| left.0 == right.0 && left.1 > right.1
    ||| left.0 == right.0 && left.1 == right.1 && left.2 > right.2
}

/// How two version texts compare. A text that is no version is never the newer
/// one.
pub open spec fn version_order(left: Seq<char>, right: Seq<char>) -> Ordering {
    match (version_of(left), version_of(right)) {
        (Some(l), Some(r)) => if later(l, r) {
            Ordering::Greater
        } else if l == r {
            Ordering::Equal
        } else {
            Ordering::Less
        },
        _ => Ordering::Less,
    }
}

/// Compares two versions as numbers, so that `0.1.10` comes after `0.1.9`.
pub fn compare_versions(left: &str, right: &str) -> (order: Ordering)
    ensures
        order == version_order(left@, right@),
{
    match (parse_version(left), parse_version(right)) {
        (Some(l), Some(r)) => {
            if l.0 > r.0 || (l.0 == r.0 && l.1 > r.1) || (l.0 == r.0 && l.1 == r.1 && l.2 > r.2) {
                Ordering::Greater
            } else if l.0 == r.0 && l.1 == r.1 && l.2 == r.2 {
                Ordering::Equal
            } else {
                Ordering::Less
            }
        },
        _ => Ordering::Less,
    }
}

/// A version is written with digits, dots and plus signs alone.
pub proof fn lemma_version_chars(raw: Seq<char>, i: int)
    requires
        version_of(raw) is Some,
        0 <= i < raw.len(),
    ensures
        text::is_digit(raw[i]) || raw[i] == '.' || raw[i] == '+',
{
    if raw[i] != '.' {
        text::lemma_pieces_cover(raw, '.', i);
        let parts = text::pieces(raw, '.');
        let k = choose|k: int| 0 <= k < parts.len() && (#[trigger] parts[k]).contains(raw[i]);
        assert(text::spells_u64(parts[k]));
        let at = choose|at: int| 0 <= at < parts[k].len() && parts[k][at] == raw[i];
        let digits = text::unsigned_digits(parts[k]);
        if parts[k][0] == '+' {
            if at > 0 {
                assert(digits[at - 1] == raw[i]);
            }
        } else {
            assert(digits[at] == raw[i]);
        }
    }
}

/// A version as three numbers are written out.
pub open spec fn version_text(version: (u64, u64, u64)) -> Seq<char> {
    text::decimal(version.0 as nat) + seq!['.'] + (text::decimal(version.1 as nat) + seq!['.']
        + text::decimal(version.2 as nat))
}

/// A version that is written out reads back as the same three numbers.
pub proof fn law_a_written_version_reads_back(version: (u64, u64, u64))
    ensures
        version_of(version_text(version)) == Some(version),
{
    let major = text::decimal(version.0 as nat);
    let minor = text::decimal(version.1 as nat);
    let patch = text::decimal(version.2 as nat);
    text::lemma_decimal_reads_back(version.0 as nat);
    text::lemma_decimal_reads_back(version.1 as nat);
    text::lemma_decimal_reads_back(version.2 as nat);
    assert(!text::is_digit('.'));
    assert(!major.contains('.') && !minor.contains('.') && !patch.contains('.'));
    text::lemma_pieces_after(major, minor + seq!['.'] + patch, '.');
    text::lemma_pieces_after(minor, patch, '.');
    text::lemma_one_piece(patch, '.');
    let parts = text::pieces(version_text(version), '.');
    assert(parts == seq![major] + (seq![minor] + seq![patch]));
    assert(parts[0] == major && parts[1] == minor && parts[2] == patch);
}

/// Versions are ordered: of two that parse, one is newer exactly when the other
/// is older.
pub proof fn law_versions_are_antisymmetric(left: Seq<char>, right: Seq<char>)
    requires
        version_of(left) is Some,
        version_of(right) is Some,
    ensures
        version_order(left, right) == Ordering::Greater <==> version_order(right, left)
            == Ordering::Less,
        version_order(left, right) == Ordering::Equal <==> version_of(left) == version_of(right),
{
}

/// Newer than something newer is newer still.
pub proof fn law_versions_are_transitive(a: Seq<char>, b: Seq<char>, c: Seq<char>)
    requires
        version_order(a, b) == Ordering::Greater,
        version_order(b, c) == Ordering::Greater,
    ensures
        version_order(a, c) == Ordering::Greater,
{
}

/// A text that cannot be read as a version never counts as newer than anything.
pub proof fn law_an_unreadable_version_is_never_newer(left: Seq<char>, right: Seq<char>)
    requires
        version_of(left) is None || version_of(right) is None,
    ensures
        version_order(left, right) == Ordering::Less,
{
}

// ---------------------------------------------------------------------------
// Paths, as an operator would type them
// ---------------------------------------------------------------------------

/// A path without the `\\?\` that Windows puts in front of a canonical one; a
/// network path keeps it, because what follows is no path without it.
pub open spec fn shown_path(rendered: Seq<char>) -> Seq<char> {
    match text::after_prefix(rendered, "\\\\?\\"@) {
        Some(stripped) if !"UNC\\"@.is_prefix_of(stripped) => stripped,
        _ => rendered,
    }
}

/// Renders a path for a person.
pub fn display_path(rendered: &str) -> (shown: String)
    ensures
        shown@ == shown_path(rendered@),
{
    match strip_prefix(rendered, "\\\\?\\") {
        Some(stripped) => {
            if starts_with(stripped.as_str(), "UNC\\") {
                rendered.to_owned()
            } else {
                stripped
            }
        },
        None => rendered.to_owned(),
    }
}

// ---------------------------------------------------------------------------
// Where the assets come from
// ---------------------------------------------------------------------------

/// Where the assets of one release live.
#[derive(Debug, Clone)]
pub enum AssetSource {
    /// A URL prefix: `<base>/<asset>` is fetched.
    Remote { base: String },
    /// A directory that holds the assets flat.
    Local { directory: String },
}

impl AssetSource {
    /// The origin as it is named in a report.
    pub open spec fn shown(self) -> Seq<char> {
        match self {
            AssetSource::Remote { base } => base@,
            AssetSource::Local { directory } => shown_path(directory@),
        }
    }

    /// Names the origin in a report.
    pub fn describe(&self) -> (shown: String)
        ensures
            shown@ == self.shown(),
    {
        match self {
            AssetSource::Remote { base } => base.clone(),
            AssetSource::Local { directory } => display_path(directory.as_str()),
        }
    }

    /// The address of one asset: under the base for a remote origin, nothing
    /// for a directory.
    pub open spec fn address(self, asset: Seq<char>) -> Option<Seq<char>> {
        match self {
            AssetSource::Remote { base } => Some(base@ + "/"@ + asset),
            AssetSource::Local { .. } => None,
        }
    }

    /// The URL of one asset of a remote origin.
    pub fn url_of(&self, asset: &str) -> (url: Option<String>)
        ensures
            text::opt_text(url) == self.address(asset@),
    {
        match self {
            AssetSource::Remote { base } => {
                let mut url = base.clone();
                url.append("/");
                url.append(asset);
                Some(url)
            },
            AssetSource::Local { .. } => None,
        }
    }
}

// ---------------------------------------------------------------------------
// Which archive a host needs
// ---------------------------------------------------------------------------

/// The published artifact for one operating system and architecture.
#[derive(Debug, Clone, Copy)]
pub struct HostTarget {
    /// The target triple that the archive is named after.
    pub triple: &'static str,
    /// `tar.gz` or `zip`.
    pub extension: &'static str,
    /// The executable's name inside the archive.
    pub binary: &'static str,
}

/// The triple, extension and executable name published for a platform.
pub open spec fn target_row(os: Seq<char>, arch: Seq<char>) -> Option<
    (Seq<char>, Seq<char>, Seq<char>),
> {
    if os == "windows"@ && arch == "x86_64"@ {
        Some(("x86_64-pc-windows-msvc"@, "zip"@, "runner-manager.exe"@))
    } else if os == "macos"@ && arch == "aarch64"@ {
        Some(("aarch64-apple-darwin"@, "tar.gz"@, "runner-manager"@))
    } else if os == "macos"@ && arch == "x86_64"@ {
        Some(("x86_64-apple-darwin"@, "tar.gz"@, "runner-manager"@))
    } else if os == "linux"@ && arch == "x86_64"@ {
        Some(("x86_64-unknown-linux-gnu"@, "tar.gz"@, "runner-manager"@))
    } else if os == "linux"@ && arch == "aarch64"@ {
        Some(("aarch64-unknown-linux-gnu"@, "tar.gz"@, "runner-manager"@))
    } else {
        None
    }
}

/// The refusal for a platform that no archive is published for.
pub open spec fn no_target_error(os: Seq<char>, arch: Seq<char>) -> ErrorView {
    failure::error_with(
        Failure::UnsupportedHost,
        "no release archive is published for "@ + os + "/"@ + arch
            + ", so there is nothing to update to. This build was compiled for a platform the release does not cover."@,
        "cargo install runner-manager"@,
    )
}

/// The artifact for a platform, or a refusal that names what was asked for.
pub fn host_target(os: &str, arch: &str) -> (target: Result<HostTarget, CliError>)
    ensures
        match target {
            Ok(found) => target_row(os@, arch@) == Some(
                (found.triple@, found.extension@, found.binary@),
            ),
            Err(error) => target_row(os@, arch@) is None && error@ == no_target_error(os@, arch@),
        },
{
    if same_text(os, "windows") && same_text(arch, "x86_64") {
        return Ok(
            HostTarget {
                triple: "x86_64-pc-windows-msvc",
                extension: "zip",
                binary: "runner-manager.exe",
            },
        );
    }
    if same_text(os, "macos") && same_text(arch, "aarch64") {
        return Ok(
            HostTarget {
                triple: "aarch64-apple-darwin",
                extension: "tar.gz",
                binary: "runner-manager",
            },
        );
    }
    if same_text(os, "macos") && same_text(arch, "x86_64") {
        return Ok(
            HostTarget {
                triple: "x86_64-apple-darwin",
                extension: "tar.gz",
                binary: "runner-manager",
            },
        );
    }
    if same_text(os, "linux") && same_text(arch, "x86_64") {
        return Ok(
            HostTarget {
                triple: "x86_64-unknown-linux-gnu",
                extension: "tar.gz",
                binary: "runner-manager",
            },
        );
    }
    if same_text(os, "linux") && same_text(arch, "aarch64") {
        return Ok(
            HostTarget {
                triple: "aarch64-unknown-linux-gnu",
                extension: "tar.gz",
                binary: "runner-manager",
            },
        );
    }
    let mut message = "no release archive is published for ".to_owned();
    message.append(os);
    message.append("/");
    message.append(arch);
    message.append(
        ", so there is nothing to update to. This build was compiled for a platform the release does not cover.",
    );
    Err(
        CliError::with_remedy(Failure::UnsupportedHost, message, "cargo install runner-manager"),
    )
}

// ---------------------------------------------------------------------------
// Reading SHA256SUMS
// ---------------------------------------------------------------------------

/// One release artifact: its version, the name it is published under, and its
/// digest in lower-case hexadecimal.
#[derive(Debug, Clone)]
pub struct PublishedArchive {
    pub version: String,
    pub asset: String,
    pub digest: String,
}

/// What a [`PublishedArchive`] says.
pub struct Published {
    pub version: Seq<char>,
    pub asset: Seq<char>,
    pub digest: Seq<char>,
}

impl View for PublishedArchive {
    type V = Published;

    open spec fn view(&self) -> Published {
        Published { version: self.version@, asset: self.asset@, digest: self.digest@ }
    }
}

/// The contents of a list of archives.
pub open spec fn archives(list: Seq<PublishedArchive>) -> Seq<Published> {
    Seq::new(list.len(), |i: int| list[i]@)
}

/// The version in `runner-manager-<X.Y.Z>-<target>.<extension>`, when a name is
/// exactly that.
pub open spec fn asset_version(name: Seq<char>, target: HostTarget) -> Option<Seq<char>> {
    match text::after_prefix(name, "runner-manager-"@) {
        None => None,
        Some(named) => match text::before_suffix(named, "."@ + target.extension@) {
            None => None,
            Some(stem) => match text::before_suffix(stem, "-"@ + target.triple@) {
                None => None,
                Some(version) => if version_of(version) is Some {
                    Some(version)
                } else {
                    None
                },
            },
        },
    }
}

/// Reads the version out of an asset's name. The name is matched whole, so a
/// detached signature is not taken for the archive it signs.
pub fn version_of_asset(name: &str, target: HostTarget) -> (version: Option<String>)
    ensures
        text::opt_text(version) == asset_version(name@, target),
{
    let named = match strip_prefix(name, "runner-manager-") {
        Some(named) => named,
        None => return None,
    };
    let mut extension = ".".to_owned();
    extension.append(target.extension);
    let stem = match strip_suffix(named.as_str(), extension.as_str()) {
        Some(stem) => stem,
        None => return None,
    };
    let mut triple = "-".to_owned();
    triple.append(target.triple);
    match strip_suffix(stem.as_str(), triple.as_str()) {
        Some(version) => {
            if parse_version(version.as_str()).is_some() {
                Some(version)
            } else {
                None
            }
        },
        None => None,
    }
}

/// Whether a text is a SHA-256 digest: 64 hexadecimal digits.
pub open spec fn is_digest(word: Seq<char>) -> bool {
    &&& word.len() == 64
    &&& forall|i: int| 0 <= i < word.len() ==> text::is_hex_digit(#[trigger] word[i])
}

/// Whether a line is a checksum line: a digest and a name, and nothing else.
pub open spec fn is_checksum_line(line: Seq<char>) -> bool {
    let fields = text::words(line);
    fields.len() == 2 && is_digest(fields[0])
}

/// The name on a checksum line, without the `*` that marks binary mode.
pub open spec fn line_name(line: Seq<char>) -> Seq<char> {
    let name = text::words(line)[1];
    match text::after_prefix(name, "*"@) {
        Some(stripped) => stripped,
        None => name,
    }
}

/// The archive for this target that a line publishes, if it publishes one.
pub open spec fn line_archive(line: Seq<char>, target: HostTarget) -> Option<Published> {
    if is_checksum_line(line) {
        match asset_version(line_name(line), target) {
            Some(version) => Some(
                Published {
                    version,
                    asset: line_name(line),
                    digest: text::lower_text(text::words(line)[0]),
                },
            ),
            None => None,
        }
    } else {
        None
    }
}

/// How many lines are checksum lines.
pub open spec fn checksum_lines(lines: Seq<Seq<char>>) -> nat
    decreases lines.len(),
{
    if lines.len() == 0 {
        0
    } else {
        checksum_lines(lines.drop_last()) + if is_checksum_line(lines.last()) {
            1nat
        } else {
            0nat
        }
    }
}

/// The archives for a target, in the order of their lines.
pub open spec fn archives_for(lines: Seq<Seq<char>>, target: HostTarget) -> Seq<Published>
    decreases lines.len(),
{
    if lines.len() == 0 {
        Seq::empty()
    } else {
        let before = archives_for(lines.drop_last(), target);
        match line_archive(lines.last(), target) {
            Some(archive) => before.push(archive),
            None => before,
        }
    }
}

/// The lines of a document.
pub open spec fn lines_of(document: Seq<char>) -> Seq<Seq<char>> {
    text::pieces(document, '\n')
}

/// The refusal for a document with no checksum line in it.
pub open spec fn unreadable_document_error(source: AssetSource) -> ErrorView {
    failure::error_with(
        Failure::UnusableResponse,
        "the SHA256SUMS at "@ + source.shown()
            + " has no line this command can read. Expected '<64 hex digits><spaces><asset name>' on each line; this document is empty, truncated, or not a checksum file at all."@,
        "runner-manager update --check"@,
    )
}

/// The refusal for a release with no archive for this target.
pub open spec fn no_archive_error(
    source: AssetSource,
    target: HostTarget,
    usable: nat,
) -> ErrorView {
    failure::error_with(
        Failure::UnsupportedHost,
        "the release at "@ + source.shown() + " publishes no archive for "@ + target.triple@
            + " (it publishes "@ + text::decimal(usable)
            + " assets), so there is nothing to update to on this platform."@,
        "cargo install runner-manager"@,
    )
}

/// The refusal for a release with several archives for this target.
pub open spec fn several_archives_error(
    source: AssetSource,
    target: HostTarget,
    count: nat,
) -> ErrorView {
    failure::error_with(
        Failure::UnusableResponse,
        "the release at "@ + source.shown() + " publishes "@ + text::decimal(count)
            + " archives for "@ + target.triple@ + "; refusing to guess which one is meant."@,
        "runner-manager update --check"@,
    )
}

/// The one archive that a checksum document publishes for a target, or why
/// there is not one.
pub open spec fn published_archive(
    document: Seq<char>,
    target: HostTarget,
    source: AssetSource,
) -> Result<Published, ErrorView> {
    let lines = lines_of(document);
    let found = archives_for(lines, target);
    if checksum_lines(lines) == 0 {
        Err(unreadable_document_error(source))
    } else if found.len() == 0 {
        Err(no_archive_error(source, target, checksum_lines(lines)))
    } else if found.len() == 1 {
        Ok(found[0])
    } else {
        Err(several_archives_error(source, target, found.len()))
    }
}

/// Whether every character of a word is a hexadecimal digit and there are 64.
fn is_digest_word(word: &str) -> (yes: bool)
    ensures
        yes == is_digest(word@),
{
    let chars = chars_of(word);
    if chars.len() != 64 {
        return false;
    }
    let mut i: usize = 0;
    while i < chars.len()
        invariant
            i <= chars@.len(),
            chars@.len() == 64,
            chars@ == word@,
            forall|k: int| 0 <= k < i ==> text::is_hex_digit(#[trigger] word@[k]),
        decreases chars.len() - i,
    {
        let c = chars[i];
        if !(('0' <= c && c <= '9') || ('a' <= c && c <= 'f') || ('A' <= c && c <= 'F')) {
            assert(!text::is_hex_digit(word@[i as int]));
            return false;
        }
        i = i + 1;
    }
    true
}

/// A line that was read.
pub enum ChecksumLine {
    /// Not a checksum line.
    Other,
    /// A checksum line for something else.
    Elsewhere,
    /// A checksum line for this target's archive.
    Archive(PublishedArchive),
}

/// Reads one line.
pub fn read_line(line: &str, target: HostTarget) -> (read: ChecksumLine)
    ensures
        match read {
            ChecksumLine::Other => !is_checksum_line(line@),
            ChecksumLine::Elsewhere => is_checksum_line(line@) && line_archive(
                line@,
                target,
            ) is None,
            ChecksumLine::Archive(archive) => line_archive(line@, target) == Some(archive@),
        },
{
    let fields = split_words(line);
    assert(fields@.len() == text::texts(fields@).len());
    if fields.len() != 2 {
        return ChecksumLine::Other;
    }
    assert(text::texts(fields@)[0] == fields@[0]@);
    assert(text::texts(fields@)[1] == fields@[1]@);
    if !is_digest_word(fields[0].as_str()) {
        return ChecksumLine::Other;
    }
    let name = match strip_prefix(fields[1].as_str(), "*") {
        Some(stripped) => stripped,
        None => fields[1].clone(),
    };
    match version_of_asset(name.as_str(), target) {
        Some(version) => ChecksumLine::Archive(
            PublishedArchive {
                version,
                asset: name,
                digest: to_ascii_lowercase(fields[0].as_str()),
            },
        ),
        None => ChecksumLine::Elsewhere,
    }
}

/// Reads `SHA256SUMS` and returns the one archive this host needs.
pub fn read_published_archive(document: &str, target: HostTarget, source: &AssetSource) -> (result:
    Result<PublishedArchive, CliError>)
    ensures
        match result {
            Ok(archive) => published_archive(document@, target, *source) == Ok::<
                Published,
                ErrorView,
            >(archive@),
            Err(error) => published_archive(document@, target, *source) == Err::<
                Published,
                ErrorView,
            >(error@),
        },
{
    let lines = split_at_char(document, '\n');
    let ghost all = lines_of(document@);
    assert(lines@.len() == all.len());
    let mut usable: u64 = 0;
    let mut matched: Vec<PublishedArchive> = Vec::new();
    let mut i: usize = 0;
    while i < lines.len()
        invariant
            i <= lines@.len(),
            all == lines_of(document@),
            text::texts(lines@) == all,
            usable == checksum_lines(all.take(i as int)),
            usable <= i,
            archives(matched@) == archives_for(all.take(i as int), target),
        decreases lines.len() - i,
    {
        assert(all.take(i as int + 1).drop_last() == all.take(i as int));
        assert(all.take(i as int + 1).last() == lines@[i as int]@);
        let ghost before = matched@;
        match read_line(lines[i].as_str(), target) {
            ChecksumLine::Other => {},
            ChecksumLine::Elsewhere => {
                usable = usable + 1;
            },
            ChecksumLine::Archive(archive) => {
                usable = usable + 1;
                matched.push(archive);
                assert(archives(matched@) == archives(before).push(archive@));
            },
        }
        i = i + 1;
    }
    assert(all.take(all.len() as int) == all);
    let found: usize = matched.len();
    if usable == 0 {
        let mut message = "the SHA256SUMS at ".to_owned();
        message.append(source.describe().as_str());
        message.append(
            " has no line this command can read. Expected '<64 hex digits><spaces><asset name>' on each line; this document is empty, truncated, or not a checksum file at all.",
        );
        return Err(
            CliError::with_remedy(
                Failure::UnusableResponse,
                message,
                "runner-manager update --check",
            ),
        );
    }
    if found == 0 {
        let mut message = "the release at ".to_owned();
        message.append(source.describe().as_str());
        message.append(" publishes no archive for ");
        message.append(target.triple);
        message.append(" (it publishes ");
        push_decimal(&mut message, usable);
        message.append(" assets), so there is nothing to update to on this platform.");
        return Err(
            CliError::with_remedy(
                Failure::UnsupportedHost,
                message,
                "cargo install runner-manager",
            ),
        );
    }
    if found > 1 {
        let mut message = "the release at ".to_owned();
        message.append(source.describe().as_str());
        message.append(" publishes ");
        push_decimal(&mut message, found as u64);
        message.append(" archives for ");
        message.append(target.triple);
        message.append("; refusing to guess which one is meant.");
        return Err(
            CliError::with_remedy(
                Failure::UnusableResponse,
                message,
                "runner-manager update --check",
            ),
        );
    }
    assert(archives(matched@)[0] == matched@[0]@);
    Ok(matched.remove(0))
}

// ---------------------------------------------------------------------------
// What a checksum document may look like
// ---------------------------------------------------------------------------

/// A text with `\r\n` for every `\n`.
pub open spec fn with_carriage_returns(document: Seq<char>) -> Seq<char>
    decreases document.len(),
{
    if document.len() == 0 {
        Seq::empty()
    } else if document[0] == '\n' {
        seq!['\r', '\n'] + with_carriage_returns(document.skip(1))
    } else {
        seq![document[0]] + with_carriage_returns(document.skip(1))
    }
}

/// Every line but the last ends with a carriage return more.
proof fn lemma_lines_with_carriage_returns(document: Seq<char>)
    ensures
        ({
            let plain = lines_of(document);
            let returned = lines_of(with_carriage_returns(document));
            &&& plain.len() > 0
            &&& returned.len() == plain.len()
            &&& returned.last() == plain.last()
            &&& forall|i: int|
                0 <= i < plain.len() - 1 ==> #[trigger] returned[i] == plain[i].push('\r')
        }),
    decreases document.len(),
{
    let plain = lines_of(document);
    let longer = with_carriage_returns(document);
    let returned = lines_of(longer);
    if document.len() > 0 {
        let rest = document.skip(1);
        let others = lines_of(rest);
        let others_returned = lines_of(with_carriage_returns(rest));
        lemma_lines_with_carriage_returns(rest);
        text::lemma_pieces_step(document, '\n');
        text::lemma_pieces_step(longer, '\n');
        if document[0] == '\n' {
            let tail = seq!['\n'] + with_carriage_returns(rest);
            assert(longer.skip(1) == tail);
            text::lemma_pieces_step(tail, '\n');
            assert(tail.skip(1) == with_carriage_returns(rest));
            let after = lines_of(tail);
            assert(after[0] == Seq::<char>::empty());
            assert(after.skip(1) == others_returned);
            assert(returned[0] == Seq::<char>::empty().push('\r'));
            assert(returned == seq![seq!['\r'] + after[0]] + others_returned);
            assert forall|i: int| 0 <= i < plain.len() - 1 implies #[trigger] returned[i]
                == plain[i].push('\r') by {
                if i > 0 {
                    assert(returned[i] == others_returned[i - 1]);
                    assert(plain[i] == others[i - 1]);
                }
            }
            assert(returned.last() == others_returned.last());
            assert(plain.last() == others.last());
        } else {
            assert(longer.skip(1) == with_carriage_returns(rest));
            assert(returned[0] == seq![document[0]] + others_returned[0]);
            assert(plain[0] == seq![document[0]] + others[0]);
            assert(plain.len() == others.len());
            if others.len() > 1 {
                assert(returned[0] == plain[0].push('\r'));
                assert(returned.last() == others_returned.last());
                assert(plain.last() == others.last());
            }
            assert forall|i: int| 0 <= i < plain.len() - 1 implies #[trigger] returned[i]
                == plain[i].push('\r') by {
                if i > 0 {
                    assert(returned[i] == others_returned[i]);
                    assert(plain[i] == others[i]);
                }
            }
        }
    }
}

/// Lines with the same words publish the same.
proof fn lemma_only_words_count(
    left: Seq<Seq<char>>,
    right: Seq<Seq<char>>,
    target: HostTarget,
)
    requires
        left.len() == right.len(),
        forall|i: int| 0 <= i < left.len() ==> text::words(#[trigger] left[i]) == text::words(
            right[i],
        ),
    ensures
        checksum_lines(left) == checksum_lines(right),
        archives_for(left, target) == archives_for(right, target),
    decreases left.len(),
{
    if left.len() > 0 {
        assert forall|i: int| 0 <= i < left.drop_last().len() implies text::words(
            #[trigger] left.drop_last()[i],
        ) == text::words(right.drop_last()[i]) by {
            assert(left.drop_last()[i] == left[i]);
        }
        lemma_only_words_count(left.drop_last(), right.drop_last(), target);
        assert(text::words(left[left.len() - 1]) == text::words(right[left.len() - 1]));
    }
}

/// A document with carriage returns reads as the one without them.
pub proof fn law_carriage_returns_change_nothing(
    document: Seq<char>,
    target: HostTarget,
    source: AssetSource,
)
    ensures
        published_archive(with_carriage_returns(document), target, source) == published_archive(
            document,
            target,
            source,
        ),
{
    lemma_lines_with_carriage_returns(document);
    let plain = lines_of(document);
    let returned = lines_of(with_carriage_returns(document));
    assert forall|i: int| 0 <= i < plain.len() implies text::words(#[trigger] plain[i])
        == text::words(returned[i]) by {
        if i < plain.len() - 1 {
            assert(returned[i] == plain[i].push('\r'));
            text::lemma_words_before_space(plain[i], '\r');
        } else {
            assert(plain[i] == plain.last() && returned[i] == returned.last());
        }
    }
    lemma_only_words_count(plain, returned, target);
}

/// The lines that publish an archive for a target, in their order.
pub open spec fn publishing_lines(lines: Seq<Seq<char>>, target: HostTarget) -> Seq<Seq<char>>
    decreases lines.len(),
{
    if lines.len() == 0 {
        Seq::empty()
    } else {
        let before = publishing_lines(lines.drop_last(), target);
        if line_archive(lines.last(), target) is Some {
            before.push(lines.last())
        } else {
            before
        }
    }
}

/// The archives are those of the publishing lines, one for each; how often a
/// line is among these follows from how often it is in the document; and a
/// document with archives has checksum lines.
proof fn lemma_publishing_lines(lines: Seq<Seq<char>>, target: HostTarget)
    ensures
        ({
            let publishing = publishing_lines(lines, target);
            let found = archives_for(lines, target);
            &&& found.len() == publishing.len()
            &&& forall|i: int|
                0 <= i < found.len() ==> line_archive(publishing[i], target) == Some(
                    #[trigger] found[i],
                )
            &&& forall|line: Seq<char>| #[trigger]
                publishing.to_multiset().count(line) == if line_archive(line, target) is Some {
                    lines.to_multiset().count(line)
                } else {
                    0
                }
            &&& found.len() <= checksum_lines(lines)
        }),
    decreases lines.len(),
{
    broadcast use vstd::seq_lib::group_to_multiset_ensures;
    broadcast use vstd::multiset::group_multiset_axioms;

    if lines.len() > 0 {
        let less = lines.drop_last();
        lemma_publishing_lines(less, target);
        assert(less.push(lines.last()) == lines);
        assert(lines.to_multiset() == less.to_multiset().insert(lines.last()));
    } else {
        assert forall|line: Seq<char>| #[trigger] lines.to_multiset().count(line) == 0 by {
            assert(!lines.contains(line));
        }
    }
}

/// Only the lines that publish an archive for this target count, and not their
/// order: where the same ones stand in another document, it gives the same
/// archive.
pub proof fn law_only_the_publishing_lines_count(
    document: Seq<char>,
    other: Seq<char>,
    target: HostTarget,
    source: AssetSource,
    archive: Published,
)
    requires
        published_archive(document, target, source) == Ok::<Published, ErrorView>(archive),
        publishing_lines(lines_of(other), target).to_multiset() == publishing_lines(
            lines_of(document),
            target,
        ).to_multiset(),
    ensures
        published_archive(other, target, source) == Ok::<Published, ErrorView>(archive),
{
    broadcast use vstd::seq_lib::group_to_multiset_ensures;

    lemma_publishing_lines(lines_of(document), target);
    lemma_publishing_lines(lines_of(other), target);
    let here = publishing_lines(lines_of(document), target);
    let there = publishing_lines(lines_of(other), target);
    assert(there.len() == there.to_multiset().len() && here.len() == here.to_multiset().len());
    assert(here.contains(here[0]));
    assert(there.to_multiset().count(here[0]) > 0);
    assert(there.contains(here[0]));
    assert(there[0] == here[0]);
    let found = archives_for(lines_of(document), target);
    let again = archives_for(lines_of(other), target);
    assert(line_archive(here[0], target) == Some(found[0]));
    assert(line_archive(there[0], target) == Some(again[0]));
}

/// The order of the lines does not matter.
pub proof fn law_the_order_of_lines_does_not_matter(
    document: Seq<char>,
    other: Seq<char>,
    target: HostTarget,
    source: AssetSource,
    archive: Published,
)
    requires
        published_archive(document, target, source) == Ok::<Published, ErrorView>(archive),
        lines_of(other).to_multiset() == lines_of(document).to_multiset(),
    ensures
        published_archive(other, target, source) == Ok::<Published, ErrorView>(archive),
{
    lemma_publishing_lines(lines_of(document), target);
    lemma_publishing_lines(lines_of(other), target);
    assert(publishing_lines(lines_of(other), target).to_multiset() =~= publishing_lines(
        lines_of(document),
        target,
    ).to_multiset());
    law_only_the_publishing_lines_count(document, other, target, source, archive);
}

/// Lines that publish nothing for this target do not matter, wherever they
/// stand: `foreign` are the lines of another document that are added.
pub proof fn law_foreign_lines_do_not_matter(
    document: Seq<char>,
    other: Seq<char>,
    foreign: Seq<Seq<char>>,
    target: HostTarget,
    source: AssetSource,
    archive: Published,
)
    requires
        published_archive(document, target, source) == Ok::<Published, ErrorView>(archive),
        forall|i: int|
            0 <= i < foreign.len() ==> line_archive(#[trigger] foreign[i], target) is None,
        lines_of(other).to_multiset() == lines_of(document).to_multiset().add(
            foreign.to_multiset(),
        ),
    ensures
        published_archive(other, target, source) == Ok::<Published, ErrorView>(archive),
{
    broadcast use vstd::seq_lib::group_to_multiset_ensures;
    broadcast use vstd::multiset::group_multiset_axioms;

    lemma_publishing_lines(lines_of(document), target);
    lemma_publishing_lines(lines_of(other), target);
    let here = publishing_lines(lines_of(document), target);
    let there = publishing_lines(lines_of(other), target);
    assert forall|line: Seq<char>| #[trigger]
        there.to_multiset().count(line) == here.to_multiset().count(line) by {
        if line_archive(line, target) is Some {
            assert(!foreign.contains(line));
            assert(foreign.to_multiset().count(line) == 0);
        }
    }
    assert(there.to_multiset() =~= here.to_multiset());
    law_only_the_publishing_lines_count(document, other, target, source, archive);
}

// ---------------------------------------------------------------------------
// What is published, and for whom
// ---------------------------------------------------------------------------

/// Versions are ordered by their numbers, the first that differs deciding.
pub proof fn law_versions_are_ordered_by_their_numbers(
    left: (u64, u64, u64),
    right: (u64, u64, u64),
)
    ensures
        ({
            let order = version_order(version_text(left), version_text(right));
            &&& order == Ordering::Equal <==> left == right
            &&& left.0 > right.0 ==> order == Ordering::Greater
            &&& left.0 < right.0 ==> order == Ordering::Less
            &&& left.0 == right.0 && left.1 > right.1 ==> order == Ordering::Greater
            &&& left.0 == right.0 && left.1 < right.1 ==> order == Ordering::Less
            &&& left.0 == right.0 && left.1 == right.1 && left.2 > right.2 ==> order
                == Ordering::Greater
            &&& left.0 == right.0 && left.1 == right.1 && left.2 < right.2 ==> order
                == Ordering::Less
        }),
{
    law_a_written_version_reads_back(left);
    law_a_written_version_reads_back(right);
}

/// Whether a line offers an archive for a target: it is a digest of 64
/// hexadecimal digits and a name, perhaps marked with a `*`; the name is the
/// version between `runner-manager-` and the target, with the target's extension;
/// and the digest is read in lower case.
pub open spec fn offers(line: Seq<char>, target: HostTarget, archive: Published) -> bool {
    let fields = text::words(line);
    &&& fields.len() == 2
    &&& fields[0].len() == 64
    &&& forall|i: int|
        0 <= i < 64 ==> ('0' <= #[trigger] fields[0][i] <= '9' || 'a' <= fields[0][i] <= 'f'
            || 'A' <= fields[0][i] <= 'F')
    &&& archive.digest == text::lower_text(fields[0])
    &&& fields[1] == archive.asset || fields[1] == seq!['*'] + archive.asset
    &&& archive.asset == "runner-manager-"@ + archive.version + "-"@ + target.triple@ + "."@
        + target.extension@
    &&& version_of(archive.version) is Some
}

/// A name is an archive's exactly where it is put together like one.
proof fn lemma_asset_name(name: Seq<char>, target: HostTarget, version: Seq<char>)
    ensures
        asset_version(name, target) == Some(version) <==> (version_of(version) is Some && name
            == "runner-manager-"@ + version + "-"@ + target.triple@ + "."@ + target.extension@),
{
    let head = "runner-manager-"@;
    let triple = "-"@ + target.triple@;
    let extension = "."@ + target.extension@;
    let whole = head + version + "-"@ + target.triple@ + "."@ + target.extension@;
    assert(whole =~= head + (version + triple + extension));
    if asset_version(name, target) == Some(version) {
        let named = text::after_prefix(name, head)->0;
        let stem = text::before_suffix(named, extension)->0;
        assert(name =~= head + named);
        assert(named =~= stem + extension);
        assert(stem =~= version + triple);
    }
    if version_of(version) is Some && name == whole {
        assert(head.is_prefix_of(name));
        let named = name.skip(head.len() as int);
        assert(named =~= version + triple + extension);
        assert(extension.is_suffix_of(named));
        let stem = named.take(named.len() - extension.len());
        assert(stem =~= version + triple);
        assert(triple.is_suffix_of(stem));
        assert(stem.take(stem.len() - triple.len()) =~= version);
    }
}

/// A line publishes an archive exactly where it offers it.
proof fn lemma_a_line_publishes_what_it_offers(
    line: Seq<char>,
    target: HostTarget,
    archive: Published,
)
    ensures
        line_archive(line, target) == Some(archive) <==> offers(line, target, archive),
{
    reveal_strlit("runner-manager-");
    reveal_strlit("*");
    assert("*"@ =~= seq!['*']);
    let fields = text::words(line);
    if is_checksum_line(line) {
        let name = line_name(line);
        lemma_asset_name(name, target, archive.version);
        let marked = fields[1];
        if seq!['*'].is_prefix_of(marked) {
            assert(marked =~= seq!['*'] + name);
            assert(marked[0] == '*');
        } else {
            assert(name == marked);
        }
        if offers(line, target, archive) {
            assert(archive.asset[0] == 'r');
            if marked == archive.asset {
                assert(marked[0] == 'r');
                assert(!seq!['*'].is_prefix_of(marked)) by {
                    if seq!['*'].is_prefix_of(marked) {
                        assert(seq!['*'][0] == marked[0]);
                    }
                }
            } else {
                assert(seq!['*'].is_prefix_of(marked)) by {
                    assert(marked.subrange(0, 1) =~= seq!['*']);
                }
                assert(name =~= archive.asset) by {
                    assert(marked.skip(1) =~= archive.asset);
                }
            }
        }
    }
    if offers(line, target, archive) {
        assert forall|i: int| 0 <= i < fields[0].len() implies text::is_hex_digit(
            #[trigger] fields[0][i],
        ) by {}
    }
}

/// The archives of the lines, one for each line that offers one.
proof fn lemma_archives_are_offered(lines: Seq<Seq<char>>, target: HostTarget)
    ensures
        forall|k: int|
            0 <= k < archives_for(lines, target).len() ==> exists|i: int|
                0 <= i < lines.len() && offers(
                    #[trigger] lines[i],
                    target,
                    #[trigger] archives_for(lines, target)[k],
                ),
        archives_for(lines, target).len() == 0 ==> forall|i: int, archive: Published|
            0 <= i < lines.len() ==> !#[trigger] offers(lines[i], target, archive),
        archives_for(lines, target).len() == 1 ==> exists|i: int|
            0 <= i < lines.len() && offers(
                #[trigger] lines[i],
                target,
                archives_for(lines, target)[0],
            ) && forall|j: int, archive: Published|
                0 <= j < lines.len() && j != i ==> !#[trigger] offers(lines[j], target, archive),
        archives_for(lines, target).len() > 1 ==> exists|i: int, j: int|
            0 <= i < j < lines.len() && line_archive(#[trigger] lines[i], target) is Some
                && line_archive(#[trigger] lines[j], target) is Some,
    decreases lines.len(),
{
    if lines.len() > 0 {
        let rest = lines.drop_last();
        let n = rest.len() as int;
        let before = archives_for(rest, target);
        let all = archives_for(lines, target);
        lemma_archives_are_offered(rest, target);
        assert forall|archive: Published| true implies (line_archive(lines[n], target) == Some(
            archive,
        ) <==> #[trigger] offers(lines[n], target, archive)) by {
            lemma_a_line_publishes_what_it_offers(lines[n], target, archive);
        }
        assert forall|i: int| 0 <= i < n implies #[trigger] lines[i] == rest[i] by {}
        assert forall|k: int| 0 <= k < all.len() implies exists|i: int|
            0 <= i < lines.len() && offers(#[trigger] lines[i], target, #[trigger] all[k]) by {
            if k < before.len() {
                let i = choose|i: int|
                    0 <= i < rest.len() && offers(#[trigger] rest[i], target, before[k]);
                assert(lines[i] == rest[i]);
                assert(all[k] == before[k]);
            } else {
                assert(offers(lines[n], target, all[k]));
            }
        }
        if all.len() == 1 {
            if before.len() == 1 {
                let i = choose|i: int|
                    0 <= i < rest.len() && offers(#[trigger] rest[i], target, before[0]) && forall|
                        j: int,
                        archive: Published,
                    |
                        0 <= j < rest.len() && j != i ==> !#[trigger] offers(rest[j], target, archive);
                assert(offers(lines[i], target, all[0]));
                assert forall|j: int, archive: Published|
                    0 <= j < lines.len() && j != i implies !#[trigger] offers(lines[j], target, archive) by {
                    if j < n {
                        assert(lines[j] == rest[j]);
                    }
                }
            } else {
                assert(offers(lines[n], target, all[0]));
                assert forall|j: int, archive: Published|
                    0 <= j < lines.len() && j != n implies !#[trigger] offers(lines[j], target, archive) by {
                    assert(lines[j] == rest[j]);
                }
            }
        }
        if all.len() > 1 {
            if before.len() > 1 {
                let (i, j) = choose|i: int, j: int|
                    0 <= i < j < rest.len() && line_archive(#[trigger] rest[i], target) is Some
                        && line_archive(#[trigger] rest[j], target) is Some;
                assert(lines[i] == rest[i] && lines[j] == rest[j]);
            } else {
                let i = choose|i: int|
                    0 <= i < rest.len() && offers(#[trigger] rest[i], target, before[0]);
                lemma_a_line_publishes_what_it_offers(rest[i], target, before[0]);
                assert(lines[i] == rest[i]);
                assert(line_archive(lines[n], target) is Some);
            }
        }
    }
}

/// What is installed is what is published for this target: an archive is found
/// exactly where one line and no other offers one, and it is the one that line
/// offers.
pub proof fn law_the_archive_found_is_the_one_offered(
    document: Seq<char>,
    target: HostTarget,
    source: AssetSource,
)
    ensures
        ({
            let lines = lines_of(document);
            let found = published_archive(document, target, source);
            &&& found matches Ok(archive) ==> exists|i: int|
                0 <= i < lines.len() && offers(#[trigger] lines[i], target, archive) && forall|
                    j: int,
                    other: Published,
                |
                    0 <= j < lines.len() && j != i ==> !#[trigger] offers(lines[j], target, other)
            &&& forall|i: int, archive: Published|
                0 <= i < lines.len() && #[trigger] offers(lines[i], target, archive) && (forall|
                    j: int,
                    other: Published,
                |
                    0 <= j < lines.len() && j != i ==> !#[trigger] offers(lines[j], target, other))
                    ==> found == Ok::<Published, ErrorView>(archive)
        }),
{
    let lines = lines_of(document);
    let all = archives_for(lines, target);
    let found = published_archive(document, target, source);
    lemma_archives_are_offered(lines, target);
    assert forall|i: int, archive: Published|
        0 <= i < lines.len() && #[trigger] offers(lines[i], target, archive) && (forall|
            j: int,
            other: Published,
        | 0 <= j < lines.len() && j != i ==> !#[trigger] offers(lines[j], target, other))
        implies found == Ok::<Published, ErrorView>(archive) by {
        lemma_a_line_publishes_what_it_offers(lines[i], target, archive);
        lemma_checksum_line_counts(lines, i);
        if all.len() > 1 {
            let (a, b) = choose|a: int, b: int|
                0 <= a < b < lines.len() && line_archive(#[trigger] lines[a], target) is Some
                    && line_archive(#[trigger] lines[b], target) is Some;
            let other = if a == i {
                b
            } else {
                a
            };
            lemma_a_line_publishes_what_it_offers(
                lines[other],
                target,
                line_archive(lines[other], target)->0,
            );
            assert(false);
        }
        assert(all.len() == 1);
        let k = choose|k: int| 0 <= k < lines.len() && offers(#[trigger] lines[k], target, all[0]);
        assert(k == i);
        lemma_a_line_publishes_what_it_offers(lines[i], target, all[0]);
    }
}

/// A checksum line counts.
proof fn lemma_checksum_line_counts(lines: Seq<Seq<char>>, i: int)
    requires
        0 <= i < lines.len(),
        is_checksum_line(lines[i]),
    ensures
        checksum_lines(lines) > 0,
    decreases lines.len(),
{
    if i < lines.len() - 1 {
        assert(lines.drop_last()[i] == lines[i]);
        lemma_checksum_line_counts(lines.drop_last(), i);
    }
}

/// A release with nothing for this target is of no use to this host; one with
/// more than one archive for it, and a document that holds no digest with a name,
/// are answers that cannot be used.
pub proof fn law_why_no_archive_is_found(
    document: Seq<char>,
    target: HostTarget,
    source: AssetSource,
)
    ensures
        ({
            let lines = lines_of(document);
            let found = published_archive(document, target, source);
            &&& found matches Err(error) ==> error.class == Failure::UnusableResponse || error.class
                == Failure::UnsupportedHost
            &&& found matches Err(error) ==> (error.class == Failure::UnsupportedHost ==> forall|
                i: int,
                archive: Published,
            |
                0 <= i < lines.len() ==> !#[trigger] offers(lines[i], target, archive))
            &&& (exists|i: int, j: int, a: Published, b: Published|
                0 <= i < j < lines.len() && #[trigger] offers(lines[i], target, a)
                    && #[trigger] offers(lines[j], target, b)) ==> (found matches Err(error)
                && error.class == Failure::UnusableResponse)
        }),
{
    let lines = lines_of(document);
    lemma_archives_are_offered(lines, target);
    let all = archives_for(lines, target);
    if exists|i: int, j: int, a: Published, b: Published|
        0 <= i < j < lines.len() && #[trigger] offers(lines[i], target, a) && #[trigger] offers(
            lines[j],
            target,
            b,
        ) {
        let (i, j, a, b) = choose|i: int, j: int, a: Published, b: Published|
            0 <= i < j < lines.len() && #[trigger] offers(lines[i], target, a)
                && #[trigger] offers(lines[j], target, b);
        lemma_a_line_publishes_what_it_offers(lines[i], target, a);
        lemma_checksum_line_counts(lines, i);
        if all.len() == 1 {
            let k = choose|k: int|
                0 <= k < lines.len() && offers(#[trigger] lines[k], target, all[0]) && forall|
                    m: int,
                    other: Published,
                |
                    0 <= m < lines.len() && m != k ==> !#[trigger] offers(lines[m], target, other);
            assert(!(offers(lines[i], target, a) && i != k));
            assert(!(offers(lines[j], target, b) && j != k));
        }
    }
}

/// The archive of a platform is named after its architecture and its system, and
/// only Windows has a zip with an `.exe` in it.
pub proof fn law_a_platform_gets_its_own_archive(os: Seq<char>, arch: Seq<char>)
    ensures
        ({
            let row = target_row(os, arch);
            &&& row is Some <==> ((arch == "x86_64"@ && (os == "windows"@ || os == "macos"@ || os
                == "linux"@)) || (arch == "aarch64"@ && (os == "macos"@ || os == "linux"@)))
            &&& row matches Some(found) ==> found.0 == arch + (if os == "windows"@ {
                "-pc-windows-msvc"@
            } else if os == "macos"@ {
                "-apple-darwin"@
            } else {
                "-unknown-linux-gnu"@
            })
            &&& row matches Some(found) ==> (found.1 == "zip"@ <==> os == "windows"@) && (found.1
                == "tar.gz"@ <==> os != "windows"@) && found.2 == "runner-manager"@ + (if os
                == "windows"@ {
                ".exe"@
            } else {
                Seq::empty()
            })
        }),
{
    reveal_strlit("windows");
    reveal_strlit("macos");
    reveal_strlit("linux");
    reveal_strlit("x86_64");
    reveal_strlit("aarch64");
    reveal_strlit("-pc-windows-msvc");
    reveal_strlit("-apple-darwin");
    reveal_strlit("-unknown-linux-gnu");
    reveal_strlit("x86_64-pc-windows-msvc");
    reveal_strlit("aarch64-apple-darwin");
    reveal_strlit("x86_64-apple-darwin");
    reveal_strlit("x86_64-unknown-linux-gnu");
    reveal_strlit("aarch64-unknown-linux-gnu");
    reveal_strlit("zip");
    reveal_strlit("tar.gz");
    reveal_strlit("runner-manager");
    reveal_strlit("runner-manager.exe");
    reveal_strlit(".exe");
    assert("windows"@[0] == 'w' && "macos"@[0] == 'm' && "linux"@[0] == 'l');
    assert("x86_64"@ + "-pc-windows-msvc"@ =~= "x86_64-pc-windows-msvc"@);
    assert("aarch64"@ + "-apple-darwin"@ =~= "aarch64-apple-darwin"@);
    assert("x86_64"@ + "-apple-darwin"@ =~= "x86_64-apple-darwin"@);
    assert("x86_64"@ + "-unknown-linux-gnu"@ =~= "x86_64-unknown-linux-gnu"@);
    assert("aarch64"@ + "-unknown-linux-gnu"@ =~= "aarch64-unknown-linux-gnu"@);
    assert("runner-manager"@ + ".exe"@ =~= "runner-manager.exe"@);
    assert("runner-manager"@ + Seq::<char>::empty() =~= "runner-manager"@);
    assert("zip"@.len() == 3 && "tar.gz"@.len() == 6);
}

} // verus!
