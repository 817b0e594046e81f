//! The downloaded archive: its digest is checked, and one file is taken out of
//! it.

use vstd::prelude::*;

use crate::failure;
use crate::failure::{CliError, ErrorView, Failure};
use crate::release;
use crate::release::{display_path, HostTarget, PublishedArchive};
use crate::replace::Platform;
use crate::text;
use crate::text::{chars_of, decode, same_text, split_at_char, trim_trailing};

verus! {

// ---------------------------------------------------------------------------
// The digest
// ---------------------------------------------------------------------------

/// The SHA-256 of some bytes, as SHA-256 defines it.
pub uninterp spec fn sha256_digest(bytes: Seq<u8>) -> Seq<u8>;

/// A hexadecimal digit, in lower case.
pub open spec fn hex_char(nibble: int) -> char {
    if nibble < 10 {
        (nibble + 48) as char
    } else {
        (nibble + 87) as char
    }
}

/// Bytes in lower-case hexadecimal: two digits for each byte, the high half
/// first.
pub open spec fn hex_text(bytes: Seq<u8>) -> Seq<char> {
    Seq::new(
        2 * bytes.len(),
        |i: int|
            if i % 2 == 0 {
                hex_char(bytes[i / 2] as int / 16)
            } else {
                hex_char(bytes[i / 2] as int % 16)
            },
    )
}

/// Wraps `sha2::Sha256::digest`. Claimed of it: the 32 bytes depend on the
/// input alone. What they are for a given input is not stated here.
#[verifier::external_body]
fn sha256(bytes: &Vec<u8>) -> (digest: Vec<u8>)
    ensures
        digest@ == sha256_digest(bytes@),
        digest@.len() == 32,
{
    <sha2::Sha256 as sha2::Digest>::digest(bytes.as_slice()).to_vec()
}

/// Wraps `hex::encode`. Claimed of it: two lower-case hexadecimal digits for
/// each byte, in order, the high half first.
#[verifier::external_body]
fn hex_encode(bytes: &Vec<u8>) -> (encoded: String)
    ensures
        encoded@ == hex_text(bytes@),
{
    hex::encode(bytes.as_slice())
}

/// The digest of an archive as `SHA256SUMS` writes it.
pub open spec fn digest_text(archive: Seq<u8>) -> Seq<char> {
    hex_text(sha256_digest(archive))
}

/// The SHA-256 of some bytes, in lower-case hexadecimal.
pub fn sha256_of(archive: &Vec<u8>) -> (digest: String)
    ensures
        digest@ == digest_text(archive@),
        digest@.len() == 64,
{
    hex_encode(&sha256(archive))
}

/// The refusal for an archive whose digest is not the published one.
pub open spec fn mismatch_error(
    published: release::Published,
    actual: Seq<char>,
    repository: Seq<char>,
) -> ErrorView {
    failure::error_with(
        Failure::UnusableResponse,
        "CHECKSUM MISMATCH: "@ + published.asset
            + " does not match the digest published beside it, so nothing has been installed and the binary in place is untouched.\n  expected (SHA256SUMS): "@
            + published.digest + "\n  actually downloaded:   "@ + actual
            + "\nThat is either a corrupted download or a tampered artifact. Retry, and if it happens again report it at "@
            + text::without_trailing(repository, '/')
            + "/issues rather than installing by hand."@,
        "runner-manager update"@,
    )
}

/// Decides on a digest: the line that says it matched, or the refusal.
pub fn check_digest(published: &PublishedArchive, actual: &str, repository: &str) -> (checked:
    Result<String, CliError>)
    ensures
        match checked {
            Ok(line) => actual@ == published@.digest && line@ == "SHA-256 OK: "@
                + published@.digest,
            Err(error) => actual@ != published@.digest && error@ == mismatch_error(
                published@,
                actual@,
                repository@,
            ),
        },
{
    if !same_text(actual, published.digest.as_str()) {
        let mut message = "CHECKSUM MISMATCH: ".to_owned();
        message.append(published.asset.as_str());
        message.append(
            " does not match the digest published beside it, so nothing has been installed and the binary in place is untouched.\n  expected (SHA256SUMS): ",
        );
        message.append(published.digest.as_str());
        message.append("\n  actually downloaded:   ");
        message.append(actual);
        message.append(
            "\nThat is either a corrupted download or a tampered artifact. Retry, and if it happens again report it at ",
        );
        message.append(trim_trailing(repository, '/').as_str());
        message.append("/issues rather than installing by hand.");
        return Err(
            CliError::with_remedy(Failure::UnusableResponse, message, "runner-manager update"),
        );
    }
    let mut line = "SHA-256 OK: ".to_owned();
    line.append(published.digest.as_str());
    Ok(line)
}

// ---------------------------------------------------------------------------
// The entries
// ---------------------------------------------------------------------------

/// A value that was read, or the text of the failure to read it.
pub open spec fn bytes_view(read: Result<Vec<u8>, String>) -> Result<Seq<u8>, Seq<char>> {
    match read {
        Ok(bytes) => Ok(bytes@),
        Err(error) => Err(error@),
    }
}

/// The names in an archive, or the text of the failure to read any.
pub open spec fn names_view(names: Result<Vec<Result<Vec<u8>, String>>, String>) -> Result<
    Seq<Result<Seq<u8>, Seq<char>>>,
    Seq<char>,
> {
    match names {
        Ok(list) => Ok(Seq::new(list@.len(), |i: int| bytes_view(list@[i]))),
        Err(error) => Err(error@),
    }
}

/// The contents of an entry, when it can be reached.
pub open spec fn contents_view(contents: Option<Result<Vec<u8>, String>>) -> Option<
    Result<Seq<u8>, Seq<char>>,
> {
    match contents {
        Some(read) => Some(bytes_view(read)),
        None => None,
    }
}

/// The names that the entries of a gzip-compressed tar archive are stored under,
/// in order, up to the first that cannot be reached.
pub uninterp spec fn tar_gz_names(archive: Seq<u8>) -> Result<
    Seq<Result<Seq<u8>, Seq<char>>>,
    Seq<char>,
>;

/// The contents of the entry at a position of a gzip-compressed tar archive;
/// `None` where no entry can be reached.
pub uninterp spec fn tar_gz_contents(archive: Seq<u8>, index: int) -> Option<
    Result<Seq<u8>, Seq<char>>,
>;

/// How many entries the directory of a zip archive lists.
pub uninterp spec fn zip_entry_count(archive: Seq<u8>) -> Result<usize, Seq<char>>;

/// The name that the entry at a position of a zip archive is stored under.
pub uninterp spec fn zip_name(archive: Seq<u8>, index: int) -> Result<Seq<char>, Seq<char>>;

/// The contents of the entry at a position of a zip archive; `None` where no
/// entry can be reached.
pub uninterp spec fn zip_contents(archive: Seq<u8>, index: int) -> Option<
    Result<Seq<u8>, Seq<char>>,
>;

/// Wraps `tar::Archive::entries` over `flate2::read::GzDecoder`, and
/// `Entry::path_bytes` of each entry. Claimed of them: the outcome depends on the
/// archive's bytes alone. How a tar archive is laid out is not stated here.
#[verifier::external_body]
fn list_tar_gz(archive: &Vec<u8>) -> (names: Result<Vec<Result<Vec<u8>, String>>, String>)
    ensures
        tar_gz_names(archive@) == names_view(names),
{
    let mut tar = tar::Archive::new(flate2::read::GzDecoder::new(archive.as_slice()));
    let entries = tar.entries().map_err(|error| error.to_string())?;
    let names = entries.map(|reached| match reached {
        Ok(entry) => Ok(entry.path_bytes().into_owned()),
        Err(error) => Err(error.to_string()),
    });
    Ok(names.collect())
}

/// Wraps `tar::Archive::entries` over `flate2::read::GzDecoder`, and the reading
/// of the contents of the entry at one position. Claimed of them: the outcome
/// depends on the archive's bytes and the position alone. How a tar archive is
/// laid out is not stated here.
#[verifier::external_body]
fn read_tar_gz_entry(archive: &Vec<u8>, index: usize) -> (contents: Option<
    Result<Vec<u8>, String>,
>)
    ensures
        tar_gz_contents(archive@, index as int) == contents_view(contents),
{
    let mut tar = tar::Archive::new(flate2::read::GzDecoder::new(archive.as_slice()));
    let mut entry = tar.entries().ok()?.nth(index)?.ok()?;
    let mut contents = Vec::new();
    let read = std::io::Read::read_to_end(&mut entry, &mut contents);
    Some(read.map(|_| contents).map_err(|error| error.to_string()))
}

/// Wraps `zip::ZipArchive::new` and `len`. Claimed of them: the outcome depends
/// on the archive's bytes alone.
#[verifier::external_body]
fn count_zip_entries(archive: &Vec<u8>) -> (count: Result<usize, String>)
    ensures
        zip_entry_count(archive@) == (match count {
            Ok(entries) => Ok::<usize, Seq<char>>(entries),
            Err(error) => Err(error@),
        }),
{
    match zip::ZipArchive::new(std::io::Cursor::new(archive.as_slice())) {
        Ok(zip) => Ok(zip.len()),
        Err(error) => Err(error.to_string()),
    }
}

/// Wraps `zip::ZipArchive::by_index` and `ZipFile::name`. Claimed of them: the
/// outcome depends on the archive's bytes and the position alone. How a zip
/// archive is laid out is not stated here.
#[verifier::external_body]
fn read_zip_name(archive: &Vec<u8>, index: usize) -> (name: Result<String, String>)
    ensures
        zip_name(archive@, index as int) == (match name {
            Ok(found) => Ok::<Seq<char>, Seq<char>>(found@),
            Err(error) => Err(error@),
        }),
{
    let mut zip = match zip::ZipArchive::new(std::io::Cursor::new(archive.as_slice())) {
        Ok(zip) => zip,
        Err(error) => return Err(error.to_string()),
    };
    let name = match zip.by_index(index) {
        Ok(entry) => Ok(entry.name().to_string()),
        Err(error) => Err(error.to_string()),
    };
    name
}

/// Wraps `zip::ZipArchive::by_index` and the reading of that entry's contents.
/// Claimed of them: the outcome depends on the archive's bytes and the position
/// alone. How a zip archive is laid out is not stated here.
#[verifier::external_body]
fn read_zip_entry(archive: &Vec<u8>, index: usize) -> (contents: Option<Result<Vec<u8>, String>>)
    ensures
        zip_contents(archive@, index as int) == contents_view(contents),
{
    let mut zip = zip::ZipArchive::new(std::io::Cursor::new(archive.as_slice())).ok()?;
    let mut entry = zip.by_index(index).ok()?;
    let mut contents = Vec::new();
    let read = std::io::Read::read_to_end(&mut entry, &mut contents);
    Some(read.map(|_| contents).map_err(|error| error.to_string()))
}

// ---------------------------------------------------------------------------
// Names inside an archive
// ---------------------------------------------------------------------------

/// Wraps the standard library's `str::from_utf8`. Claimed of it: it succeeds
/// exactly on well-formed UTF-8.
#[verifier::external_body]
fn is_utf8(bytes: &Vec<u8>) -> (yes: bool)
    ensures
        yes == vstd::utf8::valid_utf8(bytes@),
{
    std::str::from_utf8(bytes.as_slice()).is_ok()
}

/// A name that is stored in a tar archive, as a path of this platform reads:
/// Windows has none for bytes that are no UTF-8, and elsewhere what is none is
/// replaced.
pub open spec fn tar_path(raw: Seq<u8>, platform: Platform) -> Result<Seq<char>, Seq<char>> {
    if platform == Platform::Windows && !vstd::utf8::valid_utf8(raw) {
        Err("only Unicode paths are supported on Windows: "@ + text::lossy_text(raw))
    } else {
        Ok(text::lossy_text(raw))
    }
}

/// Reads a name that is stored in a tar archive.
pub fn read_tar_path(raw: &Vec<u8>, platform: Platform) -> (path: Result<String, String>)
    ensures
        tar_path(raw@, platform) == (match path {
            Ok(found) => Ok::<Seq<char>, Seq<char>>(found@),
            Err(error) => Err(error@),
        }),
{
    if platform == Platform::Windows && !is_utf8(raw) {
        let mut problem = "only Unicode paths are supported on Windows: ".to_owned();
        problem.append(decode(raw).as_str());
        return Err(problem);
    }
    Ok(decode(raw))
}

/// A path with the separators that its platform knows as `/`.
pub open spec fn separated(path: Seq<char>, platform: Platform) -> Seq<char> {
    if platform == Platform::Windows {
        forward_slashes(path)
    } else {
        path
    }
}

/// Whether a path begins at a root, or on Windows with a drive.
pub open spec fn is_rooted(path: Seq<char>, platform: Platform) -> bool {
    ||| path.len() > 0 && separated(path, platform)[0] == '/'
    ||| platform == Platform::Windows && path.len() > 1 && path[1] == ':' && (('a' <= path[0]
        && path[0] <= 'z') || ('A' <= path[0] && path[0] <= 'Z'))
}

/// Whether no `..` leads above the place where a path begins, `depth` directories
/// having been entered before these parts.
pub open spec fn stays_below(parts: Seq<Seq<char>>, depth: nat) -> bool
    decreases parts.len(),
{
    if parts.len() == 0 {
        true
    } else if parts[0] == ".."@ {
        depth > 0 && stays_below(parts.skip(1), (depth - 1) as nat)
    } else if parts[0] == "."@ || parts[0].len() == 0 {
        stays_below(parts.skip(1), depth)
    } else {
        stays_below(parts.skip(1), depth + 1)
    }
}

/// Whether a path stays below the directory that it is read from: it has no NUL
/// and no root in it, and no `..` leads above its beginning.
pub open spec fn is_enclosed(path: Seq<char>, platform: Platform) -> bool {
    &&& !path.contains('\0')
    &&& !is_rooted(path, platform)
    &&& stays_below(text::pieces(separated(path, platform), '/'), 0)
}

/// Replaces every `\` by `/`.
fn to_forward_slashes(path: &str) -> (replaced: String)
    ensures
        replaced@ == forward_slashes(path@),
{
    let chars = chars_of(path);
    let mut replaced = String::new();
    let mut i: usize = 0;
    while i < chars.len()
        invariant
            i <= chars@.len(),
            chars@ == path@,
            replaced@ == forward_slashes(path@).take(i as int),
        decreases chars.len() - i,
    {
        replaced.push(
            if chars[i] == '\\' {
                '/'
            } else {
                chars[i]
            },
        );
        assert(forward_slashes(path@).take(i as int + 1) == forward_slashes(path@).take(
            i as int,
        ).push(forward_slashes(path@)[i as int]));
        i = i + 1;
    }
    assert(forward_slashes(path@).take(i as int) == forward_slashes(path@));
    replaced
}

/// Whether a path stays below the directory that it is read from.
pub fn stays_enclosed(path: &str, platform: Platform) -> (enclosed: bool)
    ensures
        enclosed == is_enclosed(path@, platform),
{
    let chars = chars_of(path);
    let mut i: usize = 0;
    while i < chars.len()
        invariant
            i <= chars@.len(),
            chars@ == path@,
            forall|k: int| 0 <= k < i ==> #[trigger] path@[k] != '\0',
        decreases chars.len() - i,
    {
        if chars[i] == '\0' {
            assert(path@[i as int] == '\0');
            return false;
        }
        i = i + 1;
    }
    assert(!path@.contains('\0'));
    let windows = platform == Platform::Windows;
    let joined = if windows {
        to_forward_slashes(path)
    } else {
        path.to_owned()
    };
    if chars.len() > 0 && (chars[0] == '/' || (windows && chars[0] == '\\')) {
        return false;
    }
    if windows && chars.len() > 1 && chars[1] == ':' && (('a' <= chars[0] && chars[0] <= 'z') || (
    'A' <= chars[0] && chars[0] <= 'Z')) {
        return false;
    }
    assert(!is_rooted(path@, platform));
    let parts = split_at_char(joined.as_str(), '/');
    let ghost all = text::texts(parts@);
    let mut depth: usize = 0;
    let mut at: usize = 0;
    assert(all.skip(0) == all);
    while at < parts.len()
        invariant
            at <= parts@.len(),
            depth <= at,
            all == text::texts(parts@),
            all == text::pieces(separated(path@, platform), '/'),
            stays_below(all, 0) == stays_below(all.skip(at as int), depth as nat),
        decreases parts.len() - at,
    {
        let part = parts[at].as_str();
        assert(all.skip(at as int)[0] == part@);
        assert(all.skip(at as int).skip(1) == all.skip(at as int + 1));
        proof {
            reveal_strlit("");
            assert(part@.len() == 0 ==> part@ =~= ""@);
        }
        if same_text(part, "..") {
            if depth == 0 {
                return false;
            }
            depth = depth - 1;
        } else if !same_text(part, ".") && !same_text(part, "") {
            depth = depth + 1;
        }
        at = at + 1;
    }
    true
}

// ---------------------------------------------------------------------------
// Taking one file out
// ---------------------------------------------------------------------------

/// A path with `/` for every `\`.
pub open spec fn forward_slashes(path: Seq<char>) -> Seq<char> {
    Seq::new(
        path.len(),
        |i: int|
            if path[i] == '\\' {
                '/'
            } else {
                path[i]
            },
    )
}

/// Whether an archive entry is the file wanted, whichever separator it uses.
pub fn path_matches(entry: &str, wanted: &str) -> (matches: bool)
    ensures
        matches == (forward_slashes(entry@) == wanted@),
{
    let left = chars_of(entry);
    let right = chars_of(wanted);
    if left.len() != right.len() {
        assert(forward_slashes(entry@).len() != wanted@.len());
        return false;
    }
    let mut i: usize = 0;
    while i < left.len()
        invariant
            i <= left@.len(),
            left@ == entry@,
            right@ == wanted@,
            left@.len() == right@.len(),
            forall|k: int| 0 <= k < i ==> forward_slashes(entry@)[k] == #[trigger] wanted@[k],
        decreases left.len() - i,
    {
        let c = if left[i] == '\\' {
            '/'
        } else {
            left[i]
        };
        assert(c == forward_slashes(entry@)[i as int]);
        if c != right[i] {
            return false;
        }
        i = i + 1;
    }
    assert(forward_slashes(entry@) == wanted@);
    true
}

/// Where the binary sits inside a release archive: directly in the one
/// directory that is named after the release.
pub open spec fn path_inside(version: Seq<char>, target: HostTarget) -> Seq<char> {
    "runner-manager-"@ + version + "-"@ + target.triple@ + "/"@ + target.binary@
}

/// Names the binary inside a release archive.
pub fn binary_inside(version: &str, target: HostTarget) -> (inside: String)
    ensures
        inside@ == path_inside(version@, target),
{
    let mut inside = "runner-manager-".to_owned();
    inside.append(version);
    inside.append("-");
    inside.append(target.triple);
    inside.append("/");
    inside.append(target.binary);
    inside
}

/// The refusal for an archive that cannot be read.
pub open spec fn unreadable_error(archive: Seq<char>, error: Seq<char>) -> ErrorView {
    failure::error_with(
        Failure::UnusableResponse,
        "the downloaded archive "@ + release::shown_path(archive) + " could not be read: "@ + error
            + ". Nothing has been installed."@,
        "runner-manager update"@,
    )
}

/// The refusal for an archive without the binary in it.
pub open spec fn missing_error(archive: Seq<char>, inside: Seq<char>) -> ErrorView {
    failure::error_with(
        Failure::UnusableResponse,
        "the downloaded archive "@ + release::shown_path(archive) + " does not contain "@ + inside
            + ", so there is no binary to install. Nothing has been changed."@,
        "runner-manager update --check"@,
    )
}

/// The failure to write the unpacked binary down.
pub open spec fn staging_error(into: Seq<char>, error: Seq<char>) -> ErrorView {
    failure::plain_error(
        Failure::LocalState,
        "cannot write the new binary to "@ + release::shown_path(into) + ": "@ + error,
    )
}

/// Reports an archive that cannot be read.
pub fn unreadable_archive(archive: &str, error: &str) -> (failure: CliError)
    ensures
        failure@ == unreadable_error(archive@, error@),
{
    let mut message = "the downloaded archive ".to_owned();
    message.append(display_path(archive).as_str());
    message.append(" could not be read: ");
    message.append(error);
    message.append(". Nothing has been installed.");
    CliError::with_remedy(Failure::UnusableResponse, message, "runner-manager update")
}

/// Reports an archive without the binary in it.
pub fn missing_entry(archive: &str, inside: &str) -> (failure: CliError)
    ensures
        failure@ == missing_error(archive@, inside@),
{
    let mut message = "the downloaded archive ".to_owned();
    message.append(display_path(archive).as_str());
    message.append(" does not contain ");
    message.append(inside);
    message.append(", so there is no binary to install. Nothing has been changed.");
    CliError::with_remedy(Failure::UnusableResponse, message, "runner-manager update --check")
}

/// Reports that the unpacked binary cannot be written down.
pub fn cannot_stage(into: &str, error: &str) -> (failure: CliError)
    ensures
        failure@ == staging_error(into@, error@),
{
    let mut message = "cannot write the new binary to ".to_owned();
    message.append(display_path(into).as_str());
    message.append(": ");
    message.append(error);
    CliError::new(Failure::LocalState, message)
}

/// What one name means for the search: whether it is the file wanted, or that
/// the archive cannot be read. A name that is passed over is `Ok(None)`.
pub open spec fn name_verdict(
    read: Result<Option<Seq<char>>, Seq<char>>,
    inside: Seq<char>,
    archive: Seq<char>,
) -> Result<bool, ErrorView> {
    match read {
        Err(error) => Err(unreadable_error(archive, error)),
        Ok(None) => Ok(false),
        Ok(Some(name)) => Ok(forward_slashes(name) == inside),
    }
}

/// Decides on one name that was read.
pub fn judge_name(read: Result<Option<String>, String>, inside: &str, archive: &str) -> (verdict:
    Result<bool, CliError>)
    ensures
        name_verdict(
            (match read {
                Ok(name) => Ok(text::opt_text(name)),
                Err(error) => Err(error@),
            }),
            inside@,
            archive@,
        ) == (match verdict {
            Ok(wanted) => Ok::<bool, ErrorView>(wanted),
            Err(error) => Err(error@),
        }),
{
    match read {
        Err(error) => Err(unreadable_archive(archive, error.as_str())),
        Ok(None) => Ok(false),
        Ok(Some(name)) => Ok(path_matches(name.as_str(), inside)),
    }
}

/// The bytes or the failure that a search came to.
pub open spec fn found_view(found: Result<Vec<u8>, CliError>) -> Result<Seq<u8>, ErrorView> {
    match found {
        Ok(contents) => Ok(contents@),
        Err(error) => Err(error@),
    }
}

/// What the contents of the wanted entry come to.
pub open spec fn taken(
    contents: Option<Result<Seq<u8>, Seq<char>>>,
    inside: Seq<char>,
    archive: Seq<char>,
    into: Seq<char>,
) -> Result<Seq<u8>, ErrorView> {
    match contents {
        Some(Ok(bytes)) => Ok(bytes),
        Some(Err(error)) => Err(staging_error(into, error)),
        None => Err(missing_error(archive, inside)),
    }
}

/// Takes the contents of the wanted entry.
pub fn take_contents(
    contents: Option<Result<Vec<u8>, String>>,
    inside: &str,
    archive: &str,
    into: &str,
) -> (found: Result<Vec<u8>, CliError>)
    ensures
        found_view(found) == taken(contents_view(contents), inside@, archive@, into@),
{
    match contents {
        Some(Ok(bytes)) => Ok(bytes),
        Some(Err(error)) => Err(cannot_stage(into, error.as_str())),
        None => Err(missing_entry(archive, inside)),
    }
}

/// What the search of a tar archive comes to from a position on: the first name
/// that decides it.
pub open spec fn tar_gz_search(
    bytes: Seq<u8>,
    names: Seq<Result<Seq<u8>, Seq<char>>>,
    index: int,
    inside: Seq<char>,
    archive: Seq<char>,
    into: Seq<char>,
    platform: Platform,
) -> Result<Seq<u8>, ErrorView>
    decreases names.len() - index,
{
    if index < 0 || index >= names.len() {
        Err(missing_error(archive, inside))
    } else {
        match name_verdict(tar_name_read(names[index], platform), inside, archive) {
            Err(error) => Err(error),
            Ok(true) => taken(tar_gz_contents(bytes, index), inside, archive, into),
            Ok(false) => tar_gz_search(bytes, names, index + 1, inside, archive, into, platform),
        }
    }
}

/// The name of an entry of a tar archive, as the search reads it.
pub open spec fn tar_name_read(read: Result<Seq<u8>, Seq<char>>, platform: Platform) -> Result<
    Option<Seq<char>>,
    Seq<char>,
> {
    match read {
        Err(error) => Err(error),
        Ok(raw) => match tar_path(raw, platform) {
            Ok(name) => Ok(Some(name)),
            Err(error) => Err(error),
        },
    }
}

/// The search of a whole tar archive.
pub open spec fn tar_gz_result(
    bytes: Seq<u8>,
    inside: Seq<char>,
    archive: Seq<char>,
    into: Seq<char>,
    platform: Platform,
) -> Result<Seq<u8>, ErrorView> {
    match tar_gz_names(bytes) {
        Err(error) => Err(unreadable_error(archive, error)),
        Ok(names) => tar_gz_search(bytes, names, 0, inside, archive, into, platform),
    }
}

/// Takes the file named `inside` out of a `.tar.gz`.
pub fn extract_from_tar_gz(
    bytes: &Vec<u8>,
    inside: &str,
    archive: &str,
    into: &str,
    platform: Platform,
) -> (found: Result<Vec<u8>, CliError>)
    ensures
        found_view(found) == tar_gz_result(bytes@, inside@, archive@, into@, platform),
{
    let names = match list_tar_gz(bytes) {
        Ok(names) => names,
        Err(error) => return Err(unreadable_archive(archive, error.as_str())),
    };
    let ghost all = tar_gz_names(bytes@)->Ok_0;
    let mut index: usize = 0;
    while index < names.len()
        invariant
            index <= names@.len(),
            all.len() == names@.len(),
            forall|i: int| 0 <= i < all.len() ==> #[trigger] all[i] == bytes_view(names@[i]),
            tar_gz_result(bytes@, inside@, archive@, into@, platform) == tar_gz_search(
                bytes@,
                all,
                index as int,
                inside@,
                archive@,
                into@,
                platform,
            ),
        decreases names.len() - index,
    {
        assert(all[index as int] == bytes_view(names@[index as int]));
        let read = match &names[index] {
            Err(error) => Err(error.clone()),
            Ok(raw) => match read_tar_path(raw, platform) {
                Ok(name) => Ok(Some(name)),
                Err(error) => Err(error),
            },
        };
        match judge_name(read, inside, archive) {
            Err(error) => return Err(error),
            Ok(true) => {
                return take_contents(read_tar_gz_entry(bytes, index), inside, archive, into);
            },
            Ok(false) => {},
        }
        index = index + 1;
    }
    Err(missing_entry(archive, inside))
}

/// The name of an entry of a zip archive, as the search reads it: one that is not
/// enclosed is passed over.
pub open spec fn zip_name_read(read: Result<Seq<char>, Seq<char>>, platform: Platform) -> Result<
    Option<Seq<char>>,
    Seq<char>,
> {
    match read {
        Err(error) => Err(error),
        Ok(name) => if is_enclosed(name, platform) {
            Ok(Some(name))
        } else {
            Ok(None)
        },
    }
}

/// What the search of a zip archive comes to from a position on.
pub open spec fn zip_search(
    bytes: Seq<u8>,
    index: int,
    count: int,
    inside: Seq<char>,
    archive: Seq<char>,
    into: Seq<char>,
    platform: Platform,
) -> Result<Seq<u8>, ErrorView>
    decreases count - index,
{
    if index >= count {
        Err(missing_error(archive, inside))
    } else {
        match name_verdict(zip_name_read(zip_name(bytes, index), platform), inside, archive) {
            Err(error) => Err(error),
            Ok(true) => taken(zip_contents(bytes, index), inside, archive, into),
            Ok(false) => zip_search(bytes, index + 1, count, inside, archive, into, platform),
        }
    }
}

/// The search of a whole zip archive.
pub open spec fn zip_result(
    bytes: Seq<u8>,
    inside: Seq<char>,
    archive: Seq<char>,
    into: Seq<char>,
    platform: Platform,
) -> Result<Seq<u8>, ErrorView> {
    match zip_entry_count(bytes) {
        Err(error) => Err(unreadable_error(archive, error)),
        Ok(count) => zip_search(bytes, 0, count as int, inside, archive, into, platform),
    }
}

/// Takes the file named `inside` out of a `.zip`. An entry whose name leaves the
/// archive's own tree is passed over, whatever is wanted.
pub fn extract_from_zip(
    bytes: &Vec<u8>,
    inside: &str,
    archive: &str,
    into: &str,
    platform: Platform,
) -> (found: Result<Vec<u8>, CliError>)
    ensures
        found_view(found) == zip_result(bytes@, inside@, archive@, into@, platform),
{
    let count: usize = match count_zip_entries(bytes) {
        Ok(count) => count,
        Err(error) => return Err(unreadable_archive(archive, error.as_str())),
    };
    let mut index: usize = 0;
    while index < count
        invariant
            index <= count,
            zip_result(bytes@, inside@, archive@, into@, platform) == zip_search(
                bytes@,
                index as int,
                count as int,
                inside@,
                archive@,
                into@,
                platform,
            ),
        decreases count - index,
    {
        let read = match read_zip_name(bytes, index) {
            Err(error) => Err(error),
            Ok(name) => if stays_enclosed(name.as_str(), platform) {
                Ok(Some(name))
            } else {
                Ok(None)
            },
        };
        match judge_name(read, inside, archive) {
            Err(error) => return Err(error),
            Ok(true) => {
                return take_contents(read_zip_entry(bytes, index), inside, archive, into);
            },
            Ok(false) => {},
        }
        index = index + 1;
    }
    Err(missing_entry(archive, inside))
}

/// The binary that a verified archive carries, or the refusal.
pub open spec fn replacement(
    bytes: Seq<u8>,
    published: release::Published,
    target: HostTarget,
    archive: Seq<char>,
    into: Seq<char>,
    repository: Seq<char>,
    platform: Platform,
) -> Result<Seq<u8>, ErrorView> {
    let inside = path_inside(published.version, target);
    if digest_text(bytes) != published.digest {
        Err(mismatch_error(published, digest_text(bytes), repository))
    } else if target.extension@ == "zip"@ {
        zip_result(bytes, inside, archive, into, platform)
    } else {
        tar_gz_result(bytes, inside, archive, into, platform)
    }
}

/// Checks a downloaded archive against its published digest and, only when it
/// matches, takes the new binary out of it. `archive` and `into` are the paths
/// that a failure names.
pub fn unpack_verified(
    bytes: &Vec<u8>,
    published: &PublishedArchive,
    target: HostTarget,
    archive: &str,
    into: &str,
    repository: &str,
    platform: Platform,
) -> (found: Result<Vec<u8>, CliError>)
    ensures
        found_view(found) == replacement(
            bytes@,
            published@,
            target,
            archive@,
            into@,
            repository@,
            platform,
        ),
{
    let actual = sha256_of(bytes);
    match check_digest(published, actual.as_str(), repository) {
        Err(error) => return Err(error),
        Ok(_) => {},
    }
    let inside = binary_inside(published.version.as_str(), target);
    if same_text(target.extension, "zip") {
        extract_from_zip(bytes, inside.as_str(), archive, into, platform)
    } else {
        extract_from_tar_gz(bytes, inside.as_str(), archive, into, platform)
    }
}

/// Whether a character of a path is none that is special on some platform.
spec fn plain_char(c: char) -> bool {
    c != '\0' && c != ':' && c != '/' && c != '\\'
}

/// The binary of a release is never passed over: on every platform, an entry that
/// matches its name lies inside the archive's own tree.
pub proof fn law_a_releases_binary_is_enclosed(
    name: Seq<char>,
    version: Seq<char>,
    os: Seq<char>,
    arch: Seq<char>,
    target: HostTarget,
    platform: Platform,
)
    requires
        release::version_of(version) is Some,
        release::target_row(os, arch) == Some(
            (target.triple@, target.extension@, target.binary@),
        ),
        forward_slashes(name) == path_inside(version, target),
    ensures
        is_enclosed(name, platform),
{
    reveal_strlit("runner-manager-");
    reveal_strlit("-");
    reveal_strlit("/");
    reveal_strlit("..");
    reveal_strlit(".");
    reveal_strlit("runner-manager");
    reveal_strlit("runner-manager.exe");
    reveal_strlit("x86_64-pc-windows-msvc");
    reveal_strlit("aarch64-apple-darwin");
    reveal_strlit("x86_64-apple-darwin");
    reveal_strlit("x86_64-unknown-linux-gnu");
    reveal_strlit("aarch64-unknown-linux-gnu");
    let inside = path_inside(version, target);
    let directory = "runner-manager-"@ + version + "-"@ + target.triple@;
    let binary = target.binary@;
    let slash = directory.len() as int;
    assert(inside.len() == name.len());
    assert(inside =~= directory + seq!['/'] + binary);
    assert forall|i: int| 0 <= i < slash implies plain_char(#[trigger] directory[i]) by {
        if 15 <= i < 15 + version.len() {
            assert(directory[i] == version[i - 15]);
            release::lemma_version_chars(version, i - 15);
        }
    }
    assert forall|i: int| 0 <= i < binary.len() implies plain_char(#[trigger] binary[i]) by {}
    assert forall|i: int| 0 <= i < name.len() implies (name[i] == inside[i] && plain_char(
        #[trigger] name[i],
    )) || i == slash by {
        assert(forward_slashes(name)[i] == inside[i]);
        if i < slash {
            assert(inside[i] == directory[i]);
        } else if i > slash {
            assert(inside[i] == binary[i - slash - 1]);
        }
    }
    assert(forward_slashes(name)[slash] == '/');
    assert(name[slash] == '/' || name[slash] == '\\');
    assert(name[0] == 'r' && name[1] == 'u');
    assert(!name.contains('\0'));
    assert(!is_rooted(name, platform)) by {
        assert(separated(name, platform)[0] == 'r');
    }
    assert(!directory.contains('/') && !binary.contains('/'));
    let parts = text::pieces(separated(name, platform), '/');
    if platform == Platform::Windows || name[slash] == '/' {
        assert(separated(name, platform) =~= inside);
        text::lemma_pieces_after(directory, binary, '/');
        text::lemma_one_piece(binary, '/');
        assert(parts =~= seq![directory, binary]);
        assert(directory[0] == 'r' && binary[0] == 'r');
        assert(parts.skip(1) =~= seq![binary]);
        assert(parts.skip(1).skip(1) =~= Seq::<Seq<char>>::empty());
        reveal_with_fuel(stays_below, 3);
    } else {
        assert(!name.contains('/'));
        text::lemma_one_piece(name, '/');
        assert(parts =~= seq![name]);
        assert(parts.skip(1) =~= Seq::<Seq<char>>::empty());
        reveal_with_fuel(stays_below, 2);
    }
}

/// An entry whose name leaves the archive's own tree is never taken, whatever is
/// wanted: the search goes on behind it.
pub proof fn law_an_entry_outside_is_passed_over(
    bytes: Seq<u8>,
    index: int,
    count: int,
    name: Seq<char>,
    inside: Seq<char>,
    archive: Seq<char>,
    into: Seq<char>,
    platform: Platform,
)
    requires
        0 <= index < count,
        zip_name(bytes, index) == Ok::<Seq<char>, Seq<char>>(name),
        !is_enclosed(name, platform),
    ensures
        zip_search(bytes, index, count, inside, archive, into, platform) == zip_search(
            bytes,
            index + 1,
            count,
            inside,
            archive,
            into,
            platform,
        ),
{
}

/// Bytes whose digest is not the published one never become a binary.
pub proof fn law_a_mismatch_installs_nothing(
    bytes: Seq<u8>,
    published: release::Published,
    target: HostTarget,
    archive: Seq<char>,
    into: Seq<char>,
    repository: Seq<char>,
    platform: Platform,
)
    requires
        digest_text(bytes) != published.digest,
    ensures
        replacement(bytes, published, target, archive, into, repository, platform) is Err,
        replacement(bytes, published, target, archive, into, repository, platform)->Err_0.class
            == Failure::UnusableResponse,
{
}

/// Whether a name is the path wanted, with either separator in it.
pub open spec fn same_path(name: Seq<char>, wanted: Seq<char>) -> bool {
    &&& name.len() == wanted.len()
    &&& forall|i: int|
        0 <= i < name.len() ==> (if #[trigger] name[i] == '\\' {
            wanted[i] == '/'
        } else {
            wanted[i] == name[i]
        })
}

/// A name matches exactly the path that differs from it in separators alone.
pub proof fn law_only_separators_are_forgiven(name: Seq<char>, wanted: Seq<char>)
    ensures
        forward_slashes(name) == wanted <==> same_path(name, wanted),
{
    let slashed = forward_slashes(name);
    if slashed == wanted {
        assert forall|i: int| 0 <= i < name.len() implies (if #[trigger] name[i] == '\\' {
            wanted[i] == '/'
        } else {
            wanted[i] == name[i]
        }) by {
            assert(slashed[i] == wanted[i]);
        }
    }
    if same_path(name, wanted) {
        assert forall|i: int| 0 <= i < name.len() implies slashed[i] == wanted[i] by {
            assert(name[i] == '\\' || name[i] != '\\');
        }
        assert(slashed =~= wanted);
    }
}

/// Whether the name of an entry of a tar archive can be read as a path.
pub open spec fn tar_name_is_readable(
    name: Result<Seq<u8>, Seq<char>>,
    platform: Platform,
) -> bool {
    name matches Ok(raw) && (platform == Platform::Windows ==> vstd::utf8::valid_utf8(raw))
}

/// Whether an entry of a tar archive is the file wanted.
pub open spec fn tar_entry_is(
    name: Result<Seq<u8>, Seq<char>>,
    inside: Seq<char>,
    platform: Platform,
) -> bool {
    tar_name_is_readable(name, platform) && same_path(text::lossy_text(name->Ok_0), inside)
}

/// Entries of a tar archive that are readable and not wanted are passed over.
proof fn lemma_tar_entries_are_passed_over(
    bytes: Seq<u8>,
    names: Seq<Result<Seq<u8>, Seq<char>>>,
    from: int,
    at: int,
    inside: Seq<char>,
    archive: Seq<char>,
    into: Seq<char>,
    platform: Platform,
)
    requires
        0 <= from <= at <= names.len(),
        forall|j: int|
            from <= j < at ==> tar_name_is_readable(#[trigger] names[j], platform)
                && !tar_entry_is(names[j], inside, platform),
    ensures
        tar_gz_search(bytes, names, from, inside, archive, into, platform) == tar_gz_search(
            bytes,
            names,
            at,
            inside,
            archive,
            into,
            platform,
        ),
    decreases at - from,
{
    if from < at {
        assert(tar_name_is_readable(names[from], platform));
        law_only_separators_are_forgiven(text::lossy_text(names[from]->Ok_0), inside);
        lemma_tar_entries_are_passed_over(
            bytes,
            names,
            from + 1,
            at,
            inside,
            archive,
            into,
            platform,
        );
    }
}

/// Out of a tar archive comes the first entry of the wanted name. Its contents
/// are handed on as they are, and what keeps them from being read is reported.
pub proof fn law_the_first_tar_entry_of_that_name_is_taken(
    bytes: Seq<u8>,
    names: Seq<Result<Seq<u8>, Seq<char>>>,
    at: int,
    inside: Seq<char>,
    archive: Seq<char>,
    into: Seq<char>,
    platform: Platform,
)
    requires
        tar_gz_names(bytes) == Ok::<Seq<Result<Seq<u8>, Seq<char>>>, Seq<char>>(names),
        0 <= at < names.len(),
        tar_entry_is(names[at], inside, platform),
        forall|j: int|
            0 <= j < at ==> tar_name_is_readable(#[trigger] names[j], platform) && !tar_entry_is(
                names[j],
                inside,
                platform,
            ),
    ensures
        ({
            let found = tar_gz_result(bytes, inside, archive, into, platform);
            &&& tar_gz_contents(bytes, at) matches Some(Ok(contents)) ==> found == Ok::<
                Seq<u8>,
                ErrorView,
            >(contents)
            &&& tar_gz_contents(bytes, at) matches Some(Err(why)) ==> (found matches Err(error)
                && error.class == Failure::LocalState && error.message
                == "cannot write the new binary to "@ + release::shown_path(into) + ": "@ + why)
            &&& tar_gz_contents(bytes, at) is None ==> (found matches Err(error) && error.class
                == Failure::UnusableResponse)
        }),
{
    lemma_tar_entries_are_passed_over(bytes, names, 0, at, inside, archive, into, platform);
    law_only_separators_are_forgiven(text::lossy_text(names[at]->Ok_0), inside);
}

/// A tar archive without the wanted entry is refused as such, and one with a name
/// in front of it that cannot be read as one that cannot be read.
pub proof fn law_a_tar_without_the_entry_is_refused(
    bytes: Seq<u8>,
    names: Seq<Result<Seq<u8>, Seq<char>>>,
    at: int,
    inside: Seq<char>,
    archive: Seq<char>,
    into: Seq<char>,
    platform: Platform,
)
    requires
        tar_gz_names(bytes) == Ok::<Seq<Result<Seq<u8>, Seq<char>>>, Seq<char>>(names),
        0 <= at <= names.len(),
        at < names.len() ==> !tar_name_is_readable(names[at], platform),
        forall|j: int|
            0 <= j < at ==> tar_name_is_readable(#[trigger] names[j], platform) && !tar_entry_is(
                names[j],
                inside,
                platform,
            ),
    ensures
        ({
            let found = tar_gz_result(bytes, inside, archive, into, platform);
            let named = "the downloaded archive "@ + release::shown_path(archive);
            &&& found matches Err(error) && error.class == Failure::UnusableResponse
            &&& at == names.len() ==> found->Err_0.message == named + " does not contain "@ + inside
                + ", so there is no binary to install. Nothing has been changed."@
            &&& at < names.len() ==> (names[at] matches Err(why) ==> found->Err_0.message == named
                + " could not be read: "@ + why + ". Nothing has been installed."@)
            &&& at < names.len() ==> (names[at] matches Ok(raw) ==> found->Err_0.message == named
                + " could not be read: "@ + (
            "only Unicode paths are supported on Windows: "@ + text::lossy_text(raw))
                + ". Nothing has been installed."@)
        }),
{
    lemma_tar_entries_are_passed_over(bytes, names, 0, at, inside, archive, into, platform);
}

/// Whether an entry of a zip archive is the file wanted: it has the name, and the
/// name does not leave the archive's own tree.
pub open spec fn zip_entry_is(
    name: Result<Seq<char>, Seq<char>>,
    inside: Seq<char>,
    platform: Platform,
) -> bool {
    name matches Ok(path) && is_enclosed(path, platform) && same_path(path, inside)
}

/// Entries of a zip archive that are readable and not wanted are passed over.
proof fn lemma_zip_entries_are_passed_over(
    bytes: Seq<u8>,
    from: int,
    at: int,
    count: int,
    inside: Seq<char>,
    archive: Seq<char>,
    into: Seq<char>,
    platform: Platform,
)
    requires
        0 <= from <= at <= count,
        forall|j: int|
            from <= j < at ==> #[trigger] zip_name(bytes, j) is Ok && !zip_entry_is(
                zip_name(bytes, j),
                inside,
                platform,
            ),
    ensures
        zip_search(bytes, from, count, inside, archive, into, platform) == zip_search(
            bytes,
            at,
            count,
            inside,
            archive,
            into,
            platform,
        ),
    decreases at - from,
{
    if from < at {
        assert(zip_name(bytes, from) is Ok);
        law_only_separators_are_forgiven(zip_name(bytes, from)->Ok_0, inside);
        lemma_zip_entries_are_passed_over(
            bytes,
            from + 1,
            at,
            count,
            inside,
            archive,
            into,
            platform,
        );
    }
}

/// Out of a zip archive comes the first entry of the wanted name that stays in
/// the archive's own tree. Its contents are handed on as they are, and what keeps
/// them from being read is reported.
pub proof fn law_the_first_zip_entry_of_that_name_is_taken(
    bytes: Seq<u8>,
    count: usize,
    at: int,
    inside: Seq<char>,
    archive: Seq<char>,
    into: Seq<char>,
    platform: Platform,
)
    requires
        zip_entry_count(bytes) == Ok::<usize, Seq<char>>(count),
        0 <= at < count,
        zip_entry_is(zip_name(bytes, at), inside, platform),
        forall|j: int|
            0 <= j < at ==> #[trigger] zip_name(bytes, j) is Ok && !zip_entry_is(
                zip_name(bytes, j),
                inside,
                platform,
            ),
    ensures
        ({
            let found = zip_result(bytes, inside, archive, into, platform);
            &&& zip_contents(bytes, at) matches Some(Ok(contents)) ==> found == Ok::<
                Seq<u8>,
                ErrorView,
            >(contents)
            &&& zip_contents(bytes, at) matches Some(Err(why)) ==> (found matches Err(error)
                && error.class == Failure::LocalState && error.message
                == "cannot write the new binary to "@ + release::shown_path(into) + ": "@ + why)
            &&& zip_contents(bytes, at) is None ==> (found matches Err(error) && error.class
                == Failure::UnusableResponse)
        }),
{
    lemma_zip_entries_are_passed_over(
        bytes,
        0,
        at,
        count as int,
        inside,
        archive,
        into,
        platform,
    );
    law_only_separators_are_forgiven(zip_name(bytes, at)->Ok_0, inside);
}

/// A zip archive without the wanted entry is refused as such, and one with a name
/// in front of it that cannot be read as one that cannot be read.
pub proof fn law_a_zip_without_the_entry_is_refused(
    bytes: Seq<u8>,
    count: usize,
    at: int,
    inside: Seq<char>,
    archive: Seq<char>,
    into: Seq<char>,
    platform: Platform,
)
    requires
        zip_entry_count(bytes) == Ok::<usize, Seq<char>>(count),
        0 <= at <= count,
        at < count ==> zip_name(bytes, at) is Err,
        forall|j: int|
            0 <= j < at ==> #[trigger] zip_name(bytes, j) is Ok && !zip_entry_is(
                zip_name(bytes, j),
                inside,
                platform,
            ),
    ensures
        ({
            let found = zip_result(bytes, inside, archive, into, platform);
            let named = "the downloaded archive "@ + release::shown_path(archive);
            &&& found matches Err(error) && error.class == Failure::UnusableResponse
            &&& at == count ==> found->Err_0.message == named + " does not contain "@ + inside
                + ", so there is no binary to install. Nothing has been changed."@
            &&& at < count ==> found->Err_0.message == named + " could not be read: "@ + zip_name(
                bytes,
                at,
            )->Err_0 + ". Nothing has been installed."@
        }),
{
    lemma_zip_entries_are_passed_over(
        bytes,
        0,
        at,
        count as int,
        inside,
        archive,
        into,
        platform,
    );
}

/// An archive that cannot be opened at all is refused with the reason.
pub proof fn law_an_archive_that_cannot_be_opened_is_refused(
    bytes: Seq<u8>,
    why: Seq<char>,
    inside: Seq<char>,
    archive: Seq<char>,
    into: Seq<char>,
    platform: Platform,
)
    ensures
        ({
            let message = "the downloaded archive "@ + release::shown_path(archive)
                + " could not be read: "@ + why + ". Nothing has been installed."@;
            &&& tar_gz_names(bytes) == Err::<Seq<Result<Seq<u8>, Seq<char>>>, Seq<char>>(why)
                ==> (tar_gz_result(bytes, inside, archive, into, platform) matches Err(error)
                && error.class == Failure::UnusableResponse && error.message == message)
            &&& zip_entry_count(bytes) == Err::<usize, Seq<char>>(why) ==> (zip_result(
                bytes,
                inside,
                archive,
                into,
                platform,
            ) matches Err(error) && error.class == Failure::UnusableResponse && error.message
                == message)
        }),
{
}

/// Bytes of the published digest are unpacked as what the platform's archive is:
/// a zip archive or a compressed tar archive. The file taken is the binary in the
/// directory that is named after the release.
pub proof fn law_a_verified_archive_is_unpacked(
    bytes: Seq<u8>,
    published: release::Published,
    target: HostTarget,
    archive: Seq<char>,
    into: Seq<char>,
    repository: Seq<char>,
    platform: Platform,
)
    ensures
        ({
            let found = replacement(bytes, published, target, archive, into, repository, platform);
            let inside = "runner-manager-"@ + published.version + "-"@ + target.triple@ + "/"@
                + target.binary@;
            let verified = hex_text(sha256_digest(bytes)) == published.digest;
            &&& verified && target.extension@ == "zip"@ ==> found == zip_result(
                bytes,
                inside,
                archive,
                into,
                platform,
            )
            &&& verified && target.extension@ != "zip"@ ==> found == tar_gz_result(
                bytes,
                inside,
                archive,
                into,
                platform,
            )
            &&& !verified ==> (found matches Err(error) && error.class
                == Failure::UnusableResponse && exists|a: Seq<char>, b: Seq<char>, c: Seq<char>|
                error.message == #[trigger] (a + published.digest + b + hex_text(
                    sha256_digest(bytes),
                ) + c))
        }),
{
    let a = "CHECKSUM MISMATCH: "@ + published.asset
        + " does not match the digest published beside it, so nothing has been installed and the binary in place is untouched.\n  expected (SHA256SUMS): "@;
    let b = "\n  actually downloaded:   "@;
    let c = "\nThat is either a corrupted download or a tampered artifact. Retry, and if it happens again report it at "@
        + text::without_trailing(repository, '/') + "/issues rather than installing by hand."@;
    let actual = hex_text(sha256_digest(bytes));
    assert(mismatch_error(published, actual, repository).message =~= a + published.digest + b
        + actual + c);
}

/// How many of these parts enter a directory.
pub open spec fn entered(parts: Seq<Seq<char>>) -> nat {
    parts.filter(|part: Seq<char>| part.len() > 0 && part != "."@ && part != ".."@).len()
}

/// How many of these parts leave one.
pub open spec fn left(parts: Seq<Seq<char>>) -> nat {
    parts.filter(|part: Seq<char>| part == ".."@).len()
}

/// The counts of parts that enter and leave, without the first part.
proof fn lemma_first_part(parts: Seq<Seq<char>>)
    requires
        parts.len() > 0,
    ensures
        entered(parts) == entered(parts.skip(1)) + (if parts[0].len() > 0 && parts[0] != "."@
            && parts[0] != ".."@ {
            1int
        } else {
            0
        }),
        left(parts) == left(parts.skip(1)) + (if parts[0] == ".."@ {
            1int
        } else {
            0
        }),
{
    let first = seq![parts[0]];
    let enters = |part: Seq<char>| part.len() > 0 && part != "."@ && part != ".."@;
    let leaves = |part: Seq<char>| part == ".."@;
    assert(parts =~= first + parts.skip(1));
    Seq::filter_distributes_over_add(first, parts.skip(1), enters);
    Seq::filter_distributes_over_add(first, parts.skip(1), leaves);
    reveal_with_fuel(Seq::filter, 2);
    assert(first.drop_last() =~= Seq::<Seq<char>>::empty());
    assert(first.last() == parts[0]);
}

/// A path stays below its beginning exactly when no part of it leaves more
/// directories than were entered up to there.
pub proof fn law_a_path_never_leaves_more_than_it_entered(parts: Seq<Seq<char>>, depth: nat)
    ensures
        stays_below(parts, depth) <==> forall|n: int|
            0 <= n <= parts.len() ==> left(#[trigger] parts.take(n)) <= depth + entered(
                parts.take(n),
            ),
    decreases parts.len(),
{
    reveal_strlit(".");
    reveal_strlit("..");
    assert("."@.len() != ".."@.len());
    assert(parts.take(0) =~= Seq::<Seq<char>>::empty());
    reveal_with_fuel(Seq::filter, 2);
    if parts.len() > 0 {
        let rest = parts.skip(1);
        let deeper = if parts[0] == ".."@ {
            depth - 1
        } else if parts[0] == "."@ || parts[0].len() == 0 {
            depth as int
        } else {
            depth as int + 1
        };
        assert forall|n: int| 1 <= n <= parts.len() implies left(#[trigger] parts.take(n))
            - entered(parts.take(n)) - depth == left(rest.take(n - 1)) - entered(rest.take(n - 1))
            - deeper by {
            lemma_first_part(parts.take(n));
            assert(parts.take(n).skip(1) =~= rest.take(n - 1));
        }
        if deeper < 0 {
            assert(rest.take(0) =~= Seq::<Seq<char>>::empty());
            assert(left(parts.take(1)) > depth + entered(parts.take(1)));
        } else {
            law_a_path_never_leaves_more_than_it_entered(rest, deeper as nat);
            if stays_below(parts, depth) {
                assert forall|n: int| 0 <= n <= parts.len() implies left(#[trigger] parts.take(n))
                    <= depth + entered(parts.take(n)) by {
                    if n > 0 {
                        assert(left(rest.take(n - 1)) <= deeper + entered(rest.take(n - 1)));
                    }
                }
            } else {
                let m = choose|m: int|
                    0 <= m <= rest.len() && !(left(#[trigger] rest.take(m)) <= deeper + entered(
                        rest.take(m),
                    ));
                assert(left(parts.take(m + 1)) > depth + entered(parts.take(m + 1)));
            }
        }
    } else {
        assert forall|n: int| 0 <= n <= parts.len() implies left(#[trigger] parts.take(n)) <= depth
            + entered(parts.take(n)) by {
            assert(parts.take(n) =~= parts.take(0));
        }
    }
}

/// A path is enclosed when it has no NUL in it, does not begin at a root or on a
/// drive, and leaves no directory that it did not enter. Only Windows knows
/// drives and a second separator.
pub proof fn law_an_enclosed_path_stays_where_it_is(path: Seq<char>, platform: Platform)
    requires
        is_enclosed(path, platform),
    ensures
        forall|i: int| 0 <= i < path.len() ==> #[trigger] path[i] != '\0',
        path.len() > 0 ==> path[0] != '/',
        platform == Platform::Windows && path.len() > 0 ==> path[0] != '\\',
        platform == Platform::Windows && path.len() > 1 && path[1] == ':' ==> !('a' <= path[0]
            <= 'z') && !('A' <= path[0] <= 'Z'),
        platform == Platform::Windows ==> forall|n: int|
            0 <= n <= text::pieces(forward_slashes(path), '/').len() ==> left(
                #[trigger] text::pieces(forward_slashes(path), '/').take(n),
            ) <= entered(text::pieces(forward_slashes(path), '/').take(n)),
        platform != Platform::Windows ==> forall|n: int|
            0 <= n <= text::pieces(path, '/').len() ==> left(
                #[trigger] text::pieces(path, '/').take(n),
            ) <= entered(text::pieces(path, '/').take(n)),
{
    let parts = text::pieces(separated(path, platform), '/');
    law_a_path_never_leaves_more_than_it_entered(parts, 0);
    assert forall|i: int| 0 <= i < path.len() implies #[trigger] path[i] != '\0' by {
        assert(path.contains(path[i]));
    }
    if platform == Platform::Windows && path.len() > 0 {
        assert(forward_slashes(path)[0] == if path[0] == '\\' {
            '/'
        } else {
            path[0]
        });
    }
}

/// Parts none of which is `..` leave nothing.
proof fn lemma_no_part_leaves(parts: Seq<Seq<char>>)
    requires
        forall|n: int| 0 <= n < parts.len() ==> #[trigger] parts[n] != ".."@,
    ensures
        left(parts) == 0,
    decreases parts.len(),
{
    reveal(Seq::filter);
    if parts.len() > 0 {
        lemma_no_part_leaves(parts.drop_last());
        assert(parts.last() == parts[parts.len() - 1]);
    }
}

/// A path that begins at no root and on no drive, and does not lead upwards, is
/// enclosed.
pub proof fn law_a_path_of_names_is_enclosed(path: Seq<char>, platform: Platform)
    requires
        path.len() > 0 ==> path[0] != '/' && !(platform == Platform::Windows && path[0] == '\\'),
        forall|i: int| 0 <= i < path.len() ==> #[trigger] path[i] != '\0',
        platform == Platform::Windows && path.len() > 1 && path[1] == ':' ==> !('a' <= path[0]
            <= 'z' || 'A' <= path[0] <= 'Z'),
        ({
            let parts = text::pieces(separated(path, platform), '/');
            forall|n: int| 0 <= n < parts.len() ==> #[trigger] parts[n] != ".."@
        }),
    ensures
        is_enclosed(path, platform),
{
    let parts = text::pieces(separated(path, platform), '/');
    assert forall|n: int| 0 <= n <= parts.len() implies left(#[trigger] parts.take(n)) <= entered(
        parts.take(n),
    ) by {
        lemma_no_part_leaves(parts.take(n));
    }
    law_a_path_never_leaves_more_than_it_entered(parts, 0);
    if path.contains('\0') {
        let i = choose|i: int| 0 <= i < path.len() && path[i] == '\0';
        assert(path[i] != '\0');
    }
    if path.len() > 0 {
        assert(separated(path, platform)[0] == path[0]);
    }
}

/// The sixteen digits are `0` to `9` and `a` to `f`, in this order.
pub proof fn law_digits_are_in_lower_case(nibble: int)
    requires
        0 <= nibble < 16,
    ensures
        nibble < 10 ==> '0' <= hex_char(nibble) <= '9' && hex_char(nibble) as u32 - '0' as u32
            == nibble,
        nibble >= 10 ==> 'a' <= hex_char(nibble) <= 'f' && hex_char(nibble) as u32 - 'a' as u32
            == nibble - 10,
{
}

/// Two digits of a digest are one byte of it, the first of them worth sixteen
/// times the second.
pub proof fn law_a_digest_is_written_byte_by_byte(bytes: Seq<u8>, i: int)
    requires
        0 <= i < bytes.len(),
    ensures
        hex_text(bytes).len() == 2 * bytes.len(),
        exists|high: int, low: int|
            {
                &&& 0 <= high < 16 && 0 <= low < 16
                &&& bytes[i] == 16 * high + low
                &&& #[trigger] hex_char(high) == hex_text(bytes)[2 * i]
                &&& #[trigger] hex_char(low) == hex_text(bytes)[2 * i + 1]
            },
{
    let high = bytes[i] as int / 16;
    let low = bytes[i] as int % 16;
    assert((2 * i) / 2 == i && (2 * i + 1) / 2 == i);
    assert((2 * i) % 2 == 0 && (2 * i + 1) % 2 == 1);
    assert(hex_char(high) == hex_text(bytes)[2 * i]);
    assert(hex_char(low) == hex_text(bytes)[2 * i + 1]);
}

} // verus!
