//! What is said about a managed distribution.

use vstd::prelude::*;

use crate::failure;
use crate::failure::{CliError, ErrorView, Failure};
use crate::text;
use crate::text::{join, push_decimal};
use crate::wsl_status;
use crate::wsl_status::{
    Diagnostic, TaskSnapshot, WslStatusDocument, AVAILABILITY_NOTE, PRODUCT_MARKER,
};

verus! {

// ---------------------------------------------------------------------------
// Small pieces
// ---------------------------------------------------------------------------

/// A text, or what stands in for it.
pub open spec fn or_else(value: Option<String>, otherwise: Seq<char>) -> Seq<char> {
    match value {
        Some(found) => found@,
        None => otherwise,
    }
}

/// A text, or what stands in for it.
fn text_or(value: &Option<String>, otherwise: &str) -> (shown: String)
    ensures
        shown@ == or_else(*value, otherwise@),
{
    match value {
        Some(found) => found.clone(),
        None => otherwise.to_owned(),
    }
}

/// A run of spaces.
pub open spec fn spaces(count: int) -> Seq<char> {
    Seq::new(
        if count > 0 {
            count as nat
        } else {
            0
        },
        |i: int| ' ',
    )
}

/// A text, filled up with spaces to a width.
pub open spec fn padded(label: Seq<char>, width: int) -> Seq<char> {
    label + spaces(width - label.len())
}

/// Fills a text up with spaces to a width.
fn pad(label: &str, width: usize) -> (shown: String)
    ensures
        shown@ == padded(label@, width as int),
{
    let mut shown = label.to_owned();
    let mut size: usize = label.unicode_len();
    let ghost mut added: int = 0;
    assert(shown@ =~= label@ + spaces(0));
    while size < width
        invariant
            shown@ == label@ + spaces(added),
            added >= 0,
            size == label@.len() + added,
            added > 0 ==> size <= width,
        decreases width - size,
    {
        shown.push(' ');
        assert((label@ + spaces(added)).push(' ') =~= label@ + spaces(added + 1));
        proof {
            added = added + 1;
        }
        size = size + 1;
    }
    assert(spaces(added) =~= spaces(width - label@.len()));
    shown
}

// ---------------------------------------------------------------------------
// The headline and the parts that are missing
// ---------------------------------------------------------------------------

/// The one line an operator reads first.
pub open spec fn headline_text(document: WslStatusDocument) -> Seq<char> {
    document.distribution@ + if document.healthy {
        " is a healthy managed runner host."@
    } else {
        " is not ready to accept jobs. Every line below is read from the distribution, not from this machine's record."@
    }
}

/// The part about the binary, if it is not in place.
pub open spec fn binary_part(document: WslStatusDocument) -> Seq<Seq<char>> {
    if !document.binary.installed {
        seq![
            "the Linux binary at "@ + document.binary.path@ + ": "@ + or_else(
                document.binary.problem,
                "not installed"@,
            ),
        ]
    } else if !document.binary.matches_expected {
        seq![
            "the Linux binary is "@ + or_else(document.binary.version, "unknown"@)
                + " and this build provisions "@ + document.expected_version@,
        ]
    } else {
        Seq::empty()
    }
}

/// The part about the credential, if there is none.
pub open spec fn credential_part(document: WslStatusDocument) -> Seq<Seq<char>> {
    if !document.credential.present {
        seq![
            match document.credential.unreadable {
                Some(why) => "the distribution's credential store: "@ + why@,
                None => "the distribution holds no credential of its own"@,
            },
        ]
    } else {
        Seq::empty()
    }
}

/// The part about the service, if it is not healthy.
pub open spec fn service_part(document: WslStatusDocument) -> Seq<Seq<char>> {
    if !document.service.healthy {
        seq![
            "the systemd unit "@ + document.service.unit@ + " is "@ + or_else(
                document.service.active,
                "not readable"@,
            ) + "; its binary is "@ + or_else(document.service.binary_version, "not readable"@)
                + " (expected "@ + document.expected_version@ + ")"@,
        ]
    } else {
        Seq::empty()
    }
}

/// The part about the lifecycle task, if it is not in place.
pub open spec fn task_part(document: WslStatusDocument) -> Seq<Seq<char>> {
    let task = document.lifecycle_task;
    if !task.registered {
        seq!["the Windows lifecycle task "@ + task.name@ + " is not registered"@]
    } else if !task.product_owned {
        seq!["the task "@ + task.name@ + " is not this product's ("@ + PRODUCT_MARKER@ + ")"@]
    } else if !task.enabled {
        seq!["the task "@ + task.name@ + " is disabled"@]
    } else {
        Seq::empty()
    }
}

/// The parts that are not in place. A distribution that is not ready has one
/// problem: nothing else was asked.
pub open spec fn missing_parts(document: WslStatusDocument) -> Seq<Seq<char>> {
    if !document.wsl.ready {
        seq!["WSL: "@ + or_else(document.wsl.problem, "not ready"@)]
    } else {
        binary_part(document) + credential_part(document) + service_part(document) + task_part(
            document,
        )
    }
}

/// One more line at the end of a list.
proof fn lemma_one_more(list: Seq<String>, line: String, lines: Seq<Seq<char>>)
    requires
        text::texts(list) == lines,
    ensures
        text::texts(list.push(line)) == lines + seq![line@],
{
    assert(text::texts(list.push(line)) =~= lines + seq![line@]);
}

impl WslStatusDocument {
    /// The one line an operator reads first.
    pub fn headline(&self) -> (line: String)
        ensures
            line@ == headline_text(*self),
    {
        let mut line = self.distribution.clone();
        line.append(
            if self.healthy {
                " is a healthy managed runner host."
            } else {
                " is not ready to accept jobs. Every line below is read from the distribution, not from this machine's record."
            },
        );
        line
    }

    /// The binary's and the credential's parts.
    fn unhealthy_files(&self) -> (parts: Vec<String>)
        ensures
            text::texts(parts@) == binary_part(*self) + credential_part(*self),
    {
        let mut parts: Vec<String> = Vec::new();
        assert(text::texts(parts@) =~= Seq::<Seq<char>>::empty());
        if !self.binary.installed {
            let mut part = "the Linux binary at ".to_owned();
            part.append(self.binary.path.as_str());
            part.append(": ");
            part.append(text_or(&self.binary.problem, "not installed").as_str());
            proof {
                lemma_one_more(parts@, part, Seq::empty());
            }
            parts.push(part);
        } else if !self.binary.matches_expected {
            let mut part = "the Linux binary is ".to_owned();
            part.append(text_or(&self.binary.version, "unknown").as_str());
            part.append(" and this build provisions ");
            part.append(self.expected_version.as_str());
            proof {
                lemma_one_more(parts@, part, Seq::empty());
            }
            parts.push(part);
        }
        assert(text::texts(parts@) =~= binary_part(*self));
        if !self.credential.present {
            let part = match &self.credential.unreadable {
                Some(why) => {
                    let mut part = "the distribution's credential store: ".to_owned();
                    part.append(why.as_str());
                    part
                },
                None => "the distribution holds no credential of its own".to_owned(),
            };
            proof {
                lemma_one_more(parts@, part, binary_part(*self));
            }
            parts.push(part);
        }
        assert(text::texts(parts@) =~= binary_part(*self) + credential_part(*self));
        parts
    }

    /// The named parts that are not in place.
    pub fn unhealthy_parts(&self) -> (parts: Vec<String>)
        ensures
            text::texts(parts@) == missing_parts(*self),
    {
        if !self.wsl.ready {
            let mut part = "WSL: ".to_owned();
            part.append(text_or(&self.wsl.problem, "not ready").as_str());
            let parts = vec![part];
            assert(text::texts(parts@) =~= missing_parts(*self));
            return parts;
        }
        let mut parts = self.unhealthy_files();
        let ghost files = binary_part(*self) + credential_part(*self);
        if !self.service.healthy {
            let mut part = "the systemd unit ".to_owned();
            part.append(self.service.unit.as_str());
            part.append(" is ");
            part.append(text_or(&self.service.active, "not readable").as_str());
            part.append("; its binary is ");
            part.append(text_or(&self.service.binary_version, "not readable").as_str());
            part.append(" (expected ");
            part.append(self.expected_version.as_str());
            part.append(")");
            proof {
                lemma_one_more(parts@, part, files);
            }
            parts.push(part);
        }
        assert(text::texts(parts@) =~= files + service_part(*self));
        let task = &self.lifecycle_task;
        let ghost so_far = files + service_part(*self);
        if !task.registered {
            let mut part = "the Windows lifecycle task ".to_owned();
            part.append(task.name.as_str());
            part.append(" is not registered");
            proof {
                lemma_one_more(parts@, part, so_far);
            }
            parts.push(part);
        } else if !task.product_owned {
            let mut part = "the task ".to_owned();
            part.append(task.name.as_str());
            part.append(" is not this product's (");
            part.append(PRODUCT_MARKER);
            part.append(")");
            proof {
                lemma_one_more(parts@, part, so_far);
            }
            parts.push(part);
        } else if !task.enabled {
            let mut part = "the task ".to_owned();
            part.append(task.name.as_str());
            part.append(" is disabled");
            proof {
                lemma_one_more(parts@, part, so_far);
            }
            parts.push(part);
        }
        assert(text::texts(parts@) =~= so_far + task_part(*self));
        parts
    }
}

// ---------------------------------------------------------------------------
// The text report
// ---------------------------------------------------------------------------

/// One phrase for the lifecycle task.
pub open spec fn task_phrase(task: TaskSnapshot) -> Seq<char> {
    if !task.registered {
        task.name@ + " is not registered"@
    } else if !task.product_owned {
        task.name@ + " exists and is NOT this product's ("@ + PRODUCT_MARKER@
            + "); it will not be changed"@
    } else {
        task.name@ + " is registered, "@ + (if task.enabled {
            "enabled"@
        } else {
            "DISABLED"@
        }) + ", and "@ + (if task.running {
            "running"@
        } else {
            "not reported as running"@
        })
    }
}

/// Describes the lifecycle task in one phrase.
pub fn describe_task(task: &TaskSnapshot) -> (phrase: String)
    ensures
        phrase@ == task_phrase(*task),
{
    let mut phrase = task.name.clone();
    if !task.registered {
        phrase.append(" is not registered");
        return phrase;
    }
    if !task.product_owned {
        phrase.append(" exists and is NOT this product's (");
        phrase.append(PRODUCT_MARKER);
        phrase.append("); it will not be changed");
        return phrase;
    }
    phrase.append(" is registered, ");
    phrase.append(
        if task.enabled {
            "enabled"
        } else {
            "DISABLED"
        },
    );
    phrase.append(", and ");
    phrase.append(
        if task.running {
            "running"
        } else {
            "not reported as running"
        },
    );
    phrase
}

/// What is said of the record.
pub open spec fn record_phrase(document: WslStatusDocument) -> Seq<char> {
    match document.provider_record {
        Some(record) => "runner-manager "@ + record.installed_version@ + ", last verified "@
            + wsl_status::moment_text(
            record.last_verified.seconds as int,
            record.last_verified.nanos as int,
        ),
        None => "none on this machine (advisory only)"@,
    }
}

/// What is said of the distribution.
pub open spec fn wsl_phrase(document: WslStatusDocument) -> Seq<char> {
    match (document.wsl.problem, document.wsl.wsl_version) {
        (Some(problem), _) => problem@,
        (None, Some(version)) => "WSL"@ + text::decimal(version as nat) + ", "@ + or_else(
            document.wsl.architecture,
            "unknown"@,
        ) + " ("@ + or_else(document.wsl.machine, "unknown"@) + "), systemd "@ + or_else(
            document.wsl.systemd,
            "unknown"@,
        ),
        (None, None) => "not readable"@,
    }
}

/// What is said of the binary.
pub open spec fn binary_phrase(document: WslStatusDocument) -> Seq<char> {
    match (document.binary.version, document.binary.problem) {
        (Some(version), _) => version@ + " at "@ + document.binary.path@ + (
        if document.binary.matches_expected {
            Seq::empty()
        } else {
            " (this build provisions "@ + document.expected_version@ + ")"@
        }),
        (None, Some(problem)) => problem@,
        (None, None) => "not installed at "@ + document.binary.path@,
    }
}

/// What is said of the credential.
pub open spec fn credential_phrase(document: WslStatusDocument) -> Seq<char> {
    match (document.credential.unreadable, document.credential.present) {
        (Some(why), _) => "store unreadable: "@ + why@,
        (None, true) => "present in the distribution's own "@ + or_else(
            document.credential.store_scope,
            "machine"@,
        ) + " store"@,
        (None, false) => "none: this host has not been signed in"@,
    }
}

/// What is said of the service.
pub open spec fn service_phrase(document: WslStatusDocument) -> Seq<char> {
    document.service.unit@ + " is "@ + or_else(document.service.active, "not readable"@)
        + "; binary "@ + or_else(document.service.binary_version, "not readable"@) + (
    if document.service.matches_expected {
        Seq::empty()
    } else {
        " (expected "@ + document.expected_version@ + ")"@
    })
}

/// What is said of the capacity.
pub open spec fn capacity_phrase(document: WslStatusDocument) -> Seq<char> {
    match document.capacity {
        Some(capacity) => text::decimal(capacity as nat),
        None => "not readable"@,
    }
}

/// One line for a diagnostic.
pub open spec fn diagnostic_line(diagnostic: Diagnostic) -> Seq<char> {
    "  "@ + padded(diagnostic.name@, 25) + " "@ + (if diagnostic.available {
        diagnostic.detail@
    } else {
        "unavailable — "@ + diagnostic.detail@
    }) + "\n"@
}

/// One line for each diagnostic.
pub open spec fn diagnostic_lines(diagnostics: Seq<Diagnostic>) -> Seq<char>
    decreases diagnostics.len(),
{
    if diagnostics.len() == 0 {
        Seq::empty()
    } else {
        diagnostic_lines(diagnostics.drop_last()) + diagnostic_line(diagnostics.last())
    }
}

/// One line for each place where the record and the host disagree.
pub open spec fn bullet_lines(lines: Seq<Seq<char>>) -> Seq<char>
    decreases lines.len(),
{
    if lines.len() == 0 {
        Seq::empty()
    } else {
        bullet_lines(lines.drop_last()) + ("  - "@ + lines.last() + "\n"@)
    }
}

/// The block about drift; nothing when there is none.
pub open spec fn drift_block(lines: Seq<Seq<char>>) -> Seq<char> {
    if lines.len() == 0 {
        Seq::empty()
    } else {
        "\nDrift between this machine's record and the host:\n"@ + bullet_lines(lines)
    }
}

/// The whole text report.
pub open spec fn status_text(document: WslStatusDocument) -> Seq<char> {
    "runner-manager wsl status\n  distribution              "@ + document.distribution@
        + "\n  provider record           "@ + record_phrase(document)
        + "\n  wsl                       "@ + wsl_phrase(document)
        + "\n  linux binary              "@ + binary_phrase(document)
        + "\n  credential                "@ + credential_phrase(document)
        + "\n  linux service             "@ + service_phrase(document)
        + "\n  lifecycle task            "@ + task_phrase(document.lifecycle_task)
        + "\n  capacity                  "@ + capacity_phrase(document) + "\n"@
        + diagnostic_lines(document.diagnostics@) + "\n"@ + headline_text(document) + "\n"@
        + drift_block(text::texts(document.drift@)) + "\n"@ + AVAILABILITY_NOTE@ + "\n"@
}

/// Says what the record says.
fn describe_record(document: &WslStatusDocument) -> (phrase: String)
    ensures
        phrase@ == record_phrase(*document),
{
    match &document.provider_record {
        Some(record) => {
            let mut phrase = "runner-manager ".to_owned();
            phrase.append(record.installed_version.as_str());
            phrase.append(", last verified ");
            phrase.append(record.last_verified.shown().as_str());
            phrase
        },
        None => "none on this machine (advisory only)".to_owned(),
    }
}

/// Says what the distribution is.
fn describe_wsl(document: &WslStatusDocument) -> (phrase: String)
    ensures
        phrase@ == wsl_phrase(*document),
{
    match (&document.wsl.problem, document.wsl.wsl_version) {
        (Some(problem), _) => problem.clone(),
        (None, Some(version)) => {
            let mut phrase = "WSL".to_owned();
            push_decimal(&mut phrase, version as u64);
            phrase.append(", ");
            phrase.append(text_or(&document.wsl.architecture, "unknown").as_str());
            phrase.append(" (");
            phrase.append(text_or(&document.wsl.machine, "unknown").as_str());
            phrase.append("), systemd ");
            phrase.append(text_or(&document.wsl.systemd, "unknown").as_str());
            phrase
        },
        (None, None) => "not readable".to_owned(),
    }
}

/// Says what the binary is.
fn describe_binary(document: &WslStatusDocument) -> (phrase: String)
    ensures
        phrase@ == binary_phrase(*document),
{
    match (&document.binary.version, &document.binary.problem) {
        (Some(version), _) => {
            let mut phrase = version.clone();
            phrase.append(" at ");
            phrase.append(document.binary.path.as_str());
            let mut note = String::new();
            if !document.binary.matches_expected {
                note = " (this build provisions ".to_owned();
                note.append(document.expected_version.as_str());
                note.append(")");
            }
            phrase.append(note.as_str());
            phrase
        },
        (None, Some(problem)) => problem.clone(),
        (None, None) => {
            let mut phrase = "not installed at ".to_owned();
            phrase.append(document.binary.path.as_str());
            phrase
        },
    }
}

/// Says what the credential is.
fn describe_credential(document: &WslStatusDocument) -> (phrase: String)
    ensures
        phrase@ == credential_phrase(*document),
{
    match &document.credential.unreadable {
        Some(why) => {
            let mut phrase = "store unreadable: ".to_owned();
            phrase.append(why.as_str());
            phrase
        },
        None => {
            if document.credential.present {
                let mut phrase = "present in the distribution's own ".to_owned();
                phrase.append(text_or(&document.credential.store_scope, "machine").as_str());
                phrase.append(" store");
                phrase
            } else {
                "none: this host has not been signed in".to_owned()
            }
        },
    }
}

/// Says what the service is.
fn describe_service(document: &WslStatusDocument) -> (phrase: String)
    ensures
        phrase@ == service_phrase(*document),
{
    let mut phrase = document.service.unit.clone();
    phrase.append(" is ");
    phrase.append(text_or(&document.service.active, "not readable").as_str());
    phrase.append("; binary ");
    phrase.append(text_or(&document.service.binary_version, "not readable").as_str());
    let mut note = String::new();
    if !document.service.matches_expected {
        note = " (expected ".to_owned();
        note.append(document.expected_version.as_str());
        note.append(")");
    }
    phrase.append(note.as_str());
    phrase
}

/// Says what the diagnostics are.
fn describe_diagnostics(diagnostics: &Vec<Diagnostic>) -> (lines: String)
    ensures
        lines@ == diagnostic_lines(diagnostics@),
{
    let mut lines = String::new();
    let mut i: usize = 0;
    while i < diagnostics.len()
        invariant
            i <= diagnostics@.len(),
            lines@ == diagnostic_lines(diagnostics@.take(i as int)),
        decreases diagnostics.len() - i,
    {
        let diagnostic = &diagnostics[i];
        let mut line = "  ".to_owned();
        line.append(pad(diagnostic.name.as_str(), 25).as_str());
        line.append(" ");
        let mut detail = String::new();
        if diagnostic.available {
            detail = diagnostic.detail.clone();
        } else {
            detail = "unavailable — ".to_owned();
            detail.append(diagnostic.detail.as_str());
        }
        line.append(detail.as_str());
        line.append("\n");
        lines.append(line.as_str());
        assert(diagnostics@.take(i as int + 1).drop_last() == diagnostics@.take(i as int));
        i = i + 1;
    }
    assert(diagnostics@.take(diagnostics@.len() as int) == diagnostics@);
    lines
}

/// Says where the record and the host disagree.
fn describe_drift(drift: &Vec<String>) -> (block: String)
    ensures
        block@ == drift_block(text::texts(drift@)),
{
    let ghost all = text::texts(drift@);
    if drift.len() == 0 {
        return String::new();
    }
    let mut lines = String::new();
    let mut i: usize = 0;
    while i < drift.len()
        invariant
            i <= drift@.len(),
            all == text::texts(drift@),
            lines@ == bullet_lines(all.take(i as int)),
        decreases drift.len() - i,
    {
        let mut line = "  - ".to_owned();
        line.append(drift[i].as_str());
        line.append("\n");
        lines.append(line.as_str());
        assert(all.take(i as int + 1).drop_last() == all.take(i as int));
        assert(all.take(i as int + 1).last() == drift@[i as int]@);
        i = i + 1;
    }
    assert(all.take(all.len() as int) == all);
    let mut block = "\nDrift between this machine's record and the host:\n".to_owned();
    block.append(lines.as_str());
    block
}

/// Writes the text report.
pub fn write_status_text(document: &WslStatusDocument, out: &mut String)
    ensures
        final(out)@ == old(out)@ + status_text(*document),
{
    let mut said = "runner-manager wsl status\n  distribution              ".to_owned();
    said.append(document.distribution.as_str());
    said.append("\n  provider record           ");
    said.append(describe_record(document).as_str());
    said.append("\n  wsl                       ");
    said.append(describe_wsl(document).as_str());
    said.append("\n  linux binary              ");
    said.append(describe_binary(document).as_str());
    said.append("\n  credential                ");
    said.append(describe_credential(document).as_str());
    said.append("\n  linux service             ");
    said.append(describe_service(document).as_str());
    said.append("\n  lifecycle task            ");
    said.append(describe_task(&document.lifecycle_task).as_str());
    said.append("\n  capacity                  ");
    let mut capacity = String::new();
    match document.capacity {
        Some(count) => {
            push_decimal(&mut capacity, count as u64);
            assert(capacity@ == text::decimal(count as nat));
        },
        None => {
            capacity = "not readable".to_owned();
        },
    }
    said.append(capacity.as_str());
    said.append("\n");
    said.append(describe_diagnostics(&document.diagnostics).as_str());
    said.append("\n");
    said.append(document.headline().as_str());
    said.append("\n");
    said.append(describe_drift(&document.drift).as_str());
    said.append("\n");
    said.append(AVAILABILITY_NOTE);
    said.append("\n");
    out.append(said.as_str());
}

// ---------------------------------------------------------------------------
// The end of an install
// ---------------------------------------------------------------------------

/// What one run of the install did.
#[derive(Debug, Clone, PartialEq, Eq)]
pub struct InstallOutcome {
    /// The version inside the distribution.
    pub version: String,
    /// Whether the binary was replaced, or was already this version.
    pub binary_replaced: bool,
    /// Whether a new credential was issued, or an existing one adopted.
    pub credential_issued: bool,
    /// The capacity that was set, if one was.
    pub capacity_set: Option<u16>,
    /// Whether the service was installed, or an existing unit adopted.
    pub service_installed: bool,
}

/// What an install is closed with.
pub open spec fn install_report_text(
    document: WslStatusDocument,
    outcome: InstallOutcome,
) -> Seq<char> {
    "\nWhat this run did\n  linux binary              "@ + (if outcome.binary_replaced {
        "installed "@
    } else {
        "already "@
    }) + outcome.version@ + "\n  credential                "@ + (if outcome.credential_issued {
        "issued independently and delivered on a pipe"@
    } else {
        "the distribution's existing one was preserved"@
    }) + "\n  capacity                  "@ + (match outcome.capacity_set {
        Some(capacity) => "set to "@ + text::decimal(capacity as nat),
        None => "unchanged (none was supplied)"@,
    }) + "\n  linux service             "@ + (if outcome.service_installed {
        "installed"@
    } else {
        "the enabled unit was adopted"@
    }) + "\n\n"@ + status_text(document)
}

/// Writes the closing lines of an install.
pub fn write_install_report(
    document: &WslStatusDocument,
    outcome: &InstallOutcome,
    out: &mut String,
)
    ensures
        final(out)@ == old(out)@ + install_report_text(*document, *outcome),
{
    let mut said = "\nWhat this run did\n  linux binary              ".to_owned();
    said.append(
        if outcome.binary_replaced {
            "installed "
        } else {
            "already "
        },
    );
    said.append(outcome.version.as_str());
    said.append("\n  credential                ");
    said.append(
        if outcome.credential_issued {
            "issued independently and delivered on a pipe"
        } else {
            "the distribution's existing one was preserved"
        },
    );
    said.append("\n  capacity                  ");
    let mut capacity = String::new();
    match outcome.capacity_set {
        Some(count) => {
            capacity = "set to ".to_owned();
            push_decimal(&mut capacity, count as u64);
        },
        None => {
            capacity = "unchanged (none was supplied)".to_owned();
        },
    }
    said.append(capacity.as_str());
    said.append("\n  linux service             ");
    said.append(
        if outcome.service_installed {
            "installed"
        } else {
            "the enabled unit was adopted"
        },
    );
    said.append("\n\n");
    let mut status = String::new();
    write_status_text(document, &mut status);
    assert(status@ == status_text(*document));
    said.append(status.as_str());
    out.append(said.as_str());
}

/// The refusal to call a host that is only partly there a working one.
pub open spec fn partial_error(document: WslStatusDocument) -> ErrorView {
    failure::error_with(
        Failure::WslProvisioning,
        document.distribution@
            + " is provisioned only in part, so this will not claim it is a working runner host: "@
            + text::joined(missing_parts(document), "; "@)
            + ". Everything that did land stands; fix what is named and run this again."@,
        "runner-manager wsl status --distribution "@ + document.distribution@,
    )
}

/// Fails an install whose read-back found a host that cannot take jobs, naming
/// every part that is not in place.
pub fn refuse_a_partial_host(document: &WslStatusDocument) -> (accepted: Result<(), CliError>)
    ensures
        match accepted {
            Ok(_) => document.healthy,
            Err(error) => !document.healthy && error@ == partial_error(*document),
        },
{
    if document.healthy {
        return Ok(());
    }
    let mut message = document.distribution.clone();
    message.append(
        " is provisioned only in part, so this will not claim it is a working runner host: ",
    );
    message.append(join(&document.unhealthy_parts(), "; ").as_str());
    message.append(". Everything that did land stands; fix what is named and run this again.");
    let mut remedy = "runner-manager wsl status --distribution ".to_owned();
    remedy.append(document.distribution.as_str());
    Err(CliError::with_remedy(Failure::WslProvisioning, message, remedy.as_str()))
}

// ---------------------------------------------------------------------------
// Laws
// ---------------------------------------------------------------------------

/// A host is healthy exactly when no part of it is reported as missing.
pub proof fn law_healthy_means_nothing_is_missing(document: WslStatusDocument)
    ensures
        wsl_status::all_in_place(document) <==> missing_parts(document).len() == 0,
{
}

/// A distribution that is not ready reports one problem, and no part that
/// nobody asked about.
pub proof fn law_not_ready_is_one_problem(document: WslStatusDocument)
    requires
        !document.wsl.ready,
    ensures
        missing_parts(document) == seq!["WSL: "@ + or_else(document.wsl.problem, "not ready"@)],
        !wsl_status::all_in_place(document),
{
}

/// The record and the diagnostics never decide health: two documents that agree
/// on everything else are both healthy or both not, and miss the same parts.
pub proof fn law_neither_the_record_nor_docker_decides_health(
    document: WslStatusDocument,
    record: Option<wsl_status::ProviderRecordSnapshot>,
    diagnostics: Vec<Diagnostic>,
    drift: Vec<String>,
)
    ensures
        ({
            let other = WslStatusDocument {
                provider_record: record,
                diagnostics,
                drift,
                ..document
            };
            &&& wsl_status::all_in_place(other) == wsl_status::all_in_place(document)
            &&& missing_parts(other) == missing_parts(document)
        }),
{
}

/// An absent record is no drift, whatever the host looks like.
pub proof fn law_an_absent_record_is_no_drift(
    wsl_ready: bool,
    binary: wsl_status::BinarySnapshot,
    task: TaskSnapshot,
    distribution: Seq<char>,
)
    ensures
        wsl_status::drift_lines(None, wsl_ready, binary, task, distribution).len() == 0,
{
}

/// A record that agrees with what the host reports is no drift either.
pub proof fn law_an_agreeing_record_is_no_drift(
    record: wsl_status::ProviderRecordSnapshot,
    wsl_ready: bool,
    binary: wsl_status::BinarySnapshot,
    task: TaskSnapshot,
)
    requires
        record.task_name@ == task.name@,
        task.registered,
        text::opt_text(binary.version) == Some(record.installed_version@),
    ensures
        wsl_status::drift_lines(
            Some(record),
            wsl_ready,
            binary,
            task,
            record.distribution@,
        ).len() == 0,
{
}

/// A binary that was never looked for is never reported as gone: a distribution
/// that is not ready yields no drift about its binary.
pub proof fn law_an_unasked_question_is_no_drift(
    record: wsl_status::ProviderRecordSnapshot,
    binary: wsl_status::BinarySnapshot,
)
    requires
        binary.version is None,
    ensures
        wsl_status::binary_drift(record, false, binary).len() == 0,
{
}

/// What is missing is named part by part: the distribution alone where it is not
/// ready, and otherwise each of the binary, the credential, the service and the
/// task that is not as it has to be, in that order, and nothing else.
pub proof fn law_every_missing_part_is_named(document: WslStatusDocument)
    ensures
        ({
            let parts = missing_parts(document);
            let binary = !document.binary.installed || !document.binary.matches_expected;
            let credential = !document.credential.present;
            let service = !document.service.healthy;
            let task = !document.lifecycle_task.registered
                || !document.lifecycle_task.product_owned || !document.lifecycle_task.enabled;
            let one = |wrong: bool|
                if wrong {
                    1int
                } else {
                    0int
                };
            &&& !document.wsl.ready ==> parts.len() == 1
            &&& document.wsl.ready ==> {
                &&& parts.len() == one(binary) + one(credential) + one(service) + one(task)
                &&& binary && !document.binary.installed ==> ("the Linux binary at "@
                    + document.binary.path@).is_prefix_of(parts[0])
                &&& binary && document.binary.installed ==> (" and this build provisions "@
                    + document.expected_version@).is_suffix_of(parts[0])
                &&& credential && document.credential.unreadable is None ==> parts[one(binary)]
                    == "the distribution holds no credential of its own"@
                &&& service ==> ("the systemd unit "@ + document.service.unit@ + " is "@).is_prefix_of(
                parts[one(binary) + one(credential)])
                &&& !document.lifecycle_task.registered ==> parts.last()
                    == "the Windows lifecycle task "@ + document.lifecycle_task.name@
                    + " is not registered"@
                &&& document.lifecycle_task.registered && document.lifecycle_task.product_owned
                    && !document.lifecycle_task.enabled ==> parts.last() == "the task "@
                    + document.lifecycle_task.name@ + " is disabled"@
                &&& document.lifecycle_task.registered && !document.lifecycle_task.product_owned
                    ==> ("the task "@ + document.lifecycle_task.name@
                    + " is not this product's ("@).is_prefix_of(parts.last())
            }
        }),
{
    let binary = binary_part(document);
    let credential = credential_part(document);
    let service = service_part(document);
    let task = task_part(document);
    let parts = missing_parts(document);
    if document.wsl.ready {
        if binary.len() > 0 {
            assert(parts[0] == binary[0]);
            if !document.binary.installed {
                let head = "the Linux binary at "@ + document.binary.path@;
                assert(head.is_prefix_of(binary[0]));
            } else {
                let tail = " and this build provisions "@ + document.expected_version@;
                let head = "the Linux binary is "@ + or_else(document.binary.version, "unknown"@);
                assert(binary[0] =~= head + tail);
                assert(tail.is_suffix_of(head + tail));
            }
        }
        if credential.len() > 0 {
            assert(parts[binary.len() as int] == credential[0]);
        }
        if service.len() > 0 {
            assert(parts[(binary.len() + credential.len()) as int] == service[0]);
            let head = "the systemd unit "@ + document.service.unit@ + " is "@;
            assert(head.is_prefix_of(service[0]));
        }
        if task.len() > 0 {
            assert(parts.last() == task[0]);
            let head = "the task "@ + document.lifecycle_task.name@ + " is not this product's ("@;
            assert(document.lifecycle_task.registered && !document.lifecycle_task.product_owned
                ==> head.is_prefix_of(task[0]));
        }
    }
}

/// A document calls its host healthy exactly where it is, and calls it not ready
/// exactly where it is not.
pub proof fn law_the_headline_tells_health(document: WslStatusDocument)
    ensures
        headline_text(document) == document.distribution@ + " is a healthy managed runner host."@
            <==> document.healthy,
        (document.distribution@ + " is not ready to accept jobs."@).is_prefix_of(
            headline_text(document),
        ) <==> !document.healthy,
{
    reveal_strlit(" is a healthy managed runner host.");
    reveal_strlit(" is not ready to accept jobs.");
    reveal_strlit(
        " is not ready to accept jobs. Every line below is read from the distribution, not from this machine's record.",
    );
    let name = document.distribution@;
    let healthy = name + " is a healthy managed runner host."@;
    let unready = name + " is not ready to accept jobs."@;
    let said = name
        + " is not ready to accept jobs. Every line below is read from the distribution, not from this machine's record."@;
    let n = name.len() as int;
    assert(healthy[n + 4] == 'a' && said[n + 4] == 'n' && unready[n + 4] == 'n');
    assert(unready =~= said.subrange(0, unready.len() as int));
    if document.healthy && unready.is_prefix_of(headline_text(document)) {
        assert(unready[n + 4] == headline_text(document)[n + 4]);
    }
}

/// The report of a host holds its headline.
pub proof fn law_the_report_holds_the_headline(document: WslStatusDocument)
    ensures
        exists|before: Seq<char>, after: Seq<char>|
            status_text(document) == #[trigger] (before + headline_text(document) + after),
{
    let before = "runner-manager wsl status\n  distribution              "@ + document.distribution@
        + "\n  provider record           "@ + record_phrase(document)
        + "\n  wsl                       "@ + wsl_phrase(document)
        + "\n  linux binary              "@ + binary_phrase(document)
        + "\n  credential                "@ + credential_phrase(document)
        + "\n  linux service             "@ + service_phrase(document)
        + "\n  lifecycle task            "@ + task_phrase(document.lifecycle_task)
        + "\n  capacity                  "@ + capacity_phrase(document) + "\n"@
        + diagnostic_lines(document.diagnostics@) + "\n"@;
    let after = "\n"@ + drift_block(text::texts(document.drift@)) + "\n"@ + AVAILABILITY_NOTE@
        + "\n"@;
    assert(status_text(document) =~= (before + headline_text(document)) + after);
}

/// A task is described as it was found: not registered, another's, or registered
/// with whether it is enabled and running.
pub proof fn law_a_task_is_described_as_found(task: TaskSnapshot)
    ensures
        !task.registered ==> task_phrase(task) == task.name@ + " is not registered"@,
        task.registered && !task.product_owned ==> (task.name@
            + " exists and is NOT this product's ("@).is_prefix_of(task_phrase(task)),
        task.registered && task.product_owned ==> task_phrase(task) == task.name@
            + " is registered, "@ + (if task.enabled {
            "enabled"@
        } else {
            "DISABLED"@
        }) + ", and "@ + (if task.running {
            "running"@
        } else {
            "not reported as running"@
        }),
{
    let head = task.name@ + " exists and is NOT this product's ("@;
    let tail = PRODUCT_MARKER@ + "); it will not be changed"@;
    if task.registered && !task.product_owned {
        assert(task_phrase(task) =~= head + tail);
        assert(head.is_prefix_of(head + tail));
    }
}

/// A binary is described by the version it reports, with the expected one where
/// they differ; a credential as present only where it is; and a service with the
/// word of its unit.
pub proof fn law_what_is_inside_is_described_as_found(document: WslStatusDocument)
    ensures
        document.binary.version matches Some(version) ==> (version@ + " at "@
            + document.binary.path@).is_prefix_of(binary_phrase(document)) && (
        document.binary.matches_expected <==> binary_phrase(document) == version@ + " at "@
            + document.binary.path@),
        document.credential.unreadable matches Some(why) ==> credential_phrase(document)
            == "store unreadable: "@ + why@,
        document.credential.unreadable is None ==> (credential_phrase(document)
            == "none: this host has not been signed in"@ <==> !document.credential.present),
        document.service.active matches Some(word) ==> (document.service.unit@ + " is "@
            + word@).is_prefix_of(service_phrase(document)),
        document.capacity matches Some(capacity) ==> capacity_phrase(document) == text::decimal(
            capacity as nat,
        ),
        document.capacity is None ==> capacity_phrase(document) == "not readable"@,
{
    reveal_strlit(" (this build provisions ");
    reveal_strlit("none: this host has not been signed in");
    reveal_strlit("present in the distribution's own ");
    if let Some(version) = document.binary.version {
        let plain = version@ + " at "@ + document.binary.path@;
        let note = if document.binary.matches_expected {
            Seq::empty()
        } else {
            " (this build provisions "@ + document.expected_version@ + ")"@
        };
        assert(binary_phrase(document) =~= plain + note);
        assert(plain.is_prefix_of(plain + note));
        assert(plain + Seq::<char>::empty() =~= plain);
        assert(!document.binary.matches_expected ==> note.len() > 0);
    }
    if document.credential.unreadable is None && document.credential.present {
        assert(credential_phrase(document)[0] == 'p');
        assert("none: this host has not been signed in"@[0] == 'n');
    }
    if let Some(word) = document.service.active {
        let plain = document.service.unit@ + " is "@ + word@;
        let rest = "; binary "@ + or_else(document.service.binary_version, "not readable"@) + (
        if document.service.matches_expected {
            Seq::empty()
        } else {
            " (expected "@ + document.expected_version@ + ")"@
        });
        assert(service_phrase(document) =~= plain + rest);
        assert(plain.is_prefix_of(plain + rest));
    }
}

/// What a partial host is refused with names every part that is missing.
pub proof fn law_a_partial_host_is_told_what_is_missing(document: WslStatusDocument, i: int)
    requires
        0 <= i < missing_parts(document).len(),
    ensures
        partial_error(document).class == Failure::WslProvisioning,
        exists|before: Seq<char>, after: Seq<char>|
            partial_error(document).message == #[trigger] (before + missing_parts(document)[i] + after),
{
    let parts = missing_parts(document);
    text::law_a_joined_text_holds_every_part(parts, "; "@, i);
    let (before, after) = choose|before: Seq<char>, after: Seq<char>|
        text::joined(parts, "; "@) == #[trigger] (before + parts[i] + after);
    let head = document.distribution@
        + " is provisioned only in part, so this will not claim it is a working runner host: "@;
    let tail = ". Everything that did land stands; fix what is named and run this again."@;
    assert(partial_error(document).message =~= ((head + before) + parts[i]) + (after + tail));
}

/// The report of an install says what the run did, and not more.
pub proof fn law_the_install_report_says_what_was_done(
    document: WslStatusDocument,
    outcome: InstallOutcome,
)
    ensures
        ({
            let head = "\nWhat this run did\n  linux binary              "@ + (
            if outcome.binary_replaced {
                "installed "@
            } else {
                "already "@
            }) + outcome.version@;
            &&& head.is_prefix_of(install_report_text(document, outcome))
            &&& (head + "\n  credential                "@ + (if outcome.credential_issued {
                "issued independently and delivered on a pipe"@
            } else {
                "the distribution's existing one was preserved"@
            })).is_prefix_of(install_report_text(document, outcome))
            &&& status_text(document).is_suffix_of(install_report_text(document, outcome))
        }),
{
    let binary = if outcome.binary_replaced {
        "installed "@
    } else {
        "already "@
    };
    let credential = if outcome.credential_issued {
        "issued independently and delivered on a pipe"@
    } else {
        "the distribution's existing one was preserved"@
    };
    let capacity = match outcome.capacity_set {
        Some(capacity) => "set to "@ + text::decimal(capacity as nat),
        None => "unchanged (none was supplied)"@,
    };
    let service = if outcome.service_installed {
        "installed"@
    } else {
        "the enabled unit was adopted"@
    };
    let head = "\nWhat this run did\n  linux binary              "@ + binary + outcome.version@;
    let second = head + "\n  credential                "@ + credential;
    let rest = second + "\n  capacity                  "@ + capacity
        + "\n  linux service             "@ + service + "\n\n"@;
    lemma_longer(head, "\n  credential                "@, credential);
    lemma_longer(second, "\n  capacity                  "@, capacity);
    lemma_longer(
        second + "\n  capacity                  "@ + capacity,
        "\n  linux service             "@,
        service,
    );
    lemma_ends(rest, status_text(document));
    lemma_begins(
        second + "\n  capacity                  "@ + capacity + "\n  linux service             "@
            + service,
        "\n\n"@,
    );
    lemma_begins(rest, status_text(document));
    lemma_begins_through(
        second,
        second + "\n  capacity                  "@ + capacity,
        second + "\n  capacity                  "@ + capacity + "\n  linux service             "@
            + service,
    );
    lemma_begins_through(
        second,
        second + "\n  capacity                  "@ + capacity + "\n  linux service             "@
            + service,
        rest,
    );
    lemma_begins_through(second, rest, rest + status_text(document));
    lemma_begins_through(head, second, rest + status_text(document));
}

/// A text begins with what it was put together from.
proof fn lemma_begins(left: Seq<char>, right: Seq<char>)
    ensures
        left.is_prefix_of(left + right),
{
}

/// A text ends with what was put at its end.
proof fn lemma_ends(left: Seq<char>, right: Seq<char>)
    ensures
        right.is_suffix_of(left + right),
{
}

/// A text that was made longer twice begins as it did.
proof fn lemma_longer(left: Seq<char>, middle: Seq<char>, right: Seq<char>)
    ensures
        left.is_prefix_of(left + middle + right),
{
    assert(left =~= (left + middle + right).subrange(0, left.len() as int));
}

/// The beginning of a beginning is a beginning.
proof fn lemma_begins_through(first: Seq<char>, second: Seq<char>, third: Seq<char>)
    requires
        first.is_prefix_of(second),
        second.is_prefix_of(third),
    ensures
        first.is_prefix_of(third),
{
    assert(first =~= third.subrange(0, first.len() as int)) by {
        assert forall|i: int| 0 <= i < first.len() implies first[i] == third[i] by {
            assert(first[i] == second.subrange(0, first.len() as int)[i]);
            assert(second[i] == third.subrange(0, second.len() as int)[i]);
        }
    }
}

/// A padded text is the text, followed by spaces up to the width where it is
/// shorter, and by nothing where it is not.
pub proof fn law_padding_fills_up_with_spaces(label: Seq<char>, width: int)
    ensures
        padded(label, width).take(label.len() as int) == label,
        width >= label.len() ==> padded(label, width).len() == width,
        width < label.len() ==> padded(label, width) == label,
        forall|i: int| label.len() <= i < padded(label, width).len() ==> #[trigger] padded(
            label,
            width,
        )[i] == ' ',
{
    assert(padded(label, width).take(label.len() as int) =~= label);
    if width < label.len() {
        assert(padded(label, width) =~= label);
    }
}

/// Lines one after another, split at one of them.
proof fn lemma_bullet_lines_split(lines: Seq<Seq<char>>, i: int)
    requires
        0 <= i < lines.len(),
    ensures
        bullet_lines(lines) == bullet_lines(lines.take(i)) + ("  - "@ + lines[i] + "\n"@)
            + bullet_lines(lines.skip(i + 1)),
    decreases lines.len(),
{
    let last = lines.len() - 1;
    if i == last {
        assert(lines.drop_last() == lines.take(i));
        assert(lines.skip(i + 1) == Seq::<Seq<char>>::empty());
    } else {
        lemma_bullet_lines_split(lines.drop_last(), i);
        assert(lines.drop_last().take(i) == lines.take(i));
        assert(lines.skip(i + 1).drop_last() == lines.drop_last().skip(i + 1));
        assert(lines.skip(i + 1).last() == lines.last());
        assert(bullet_lines(lines) =~= bullet_lines(lines.take(i)) + ("  - "@ + lines[i] + "\n"@)
            + bullet_lines(lines.skip(i + 1)));
    }
}

/// Every disagreement between the record and the host has its line, under one
/// heading, and where there is none nothing is said of it.
pub proof fn law_every_disagreement_has_its_line(lines: Seq<Seq<char>>, i: int)
    ensures
        lines.len() == 0 ==> drift_block(lines).len() == 0,
        0 <= i < lines.len() ==> exists|before: Seq<char>, after: Seq<char>|
            drift_block(lines) == #[trigger] (
            "\nDrift between this machine's record and the host:\n"@ + before + ("  - "@ + lines[i]
                + "\n"@) + after),
{
    if 0 <= i < lines.len() {
        lemma_bullet_lines_split(lines, i);
        let before = bullet_lines(lines.take(i));
        let after = bullet_lines(lines.skip(i + 1));
        assert(drift_block(lines) =~= "\nDrift between this machine's record and the host:\n"@
            + before + ("  - "@ + lines[i] + "\n"@) + after);
    }
}

/// Diagnostics one after another, split at one of them.
proof fn lemma_diagnostics_split(diagnostics: Seq<Diagnostic>, i: int)
    requires
        0 <= i < diagnostics.len(),
    ensures
        diagnostic_lines(diagnostics) == diagnostic_lines(diagnostics.take(i)) + diagnostic_line(
            diagnostics[i],
        ) + diagnostic_lines(diagnostics.skip(i + 1)),
    decreases diagnostics.len(),
{
    let last = diagnostics.len() - 1;
    if i == last {
        assert(diagnostics.drop_last() == diagnostics.take(i));
        assert(diagnostics.skip(i + 1) == Seq::<Diagnostic>::empty());
    } else {
        lemma_diagnostics_split(diagnostics.drop_last(), i);
        assert(diagnostics.drop_last().take(i) == diagnostics.take(i));
        assert(diagnostics.skip(i + 1).drop_last() == diagnostics.drop_last().skip(i + 1));
        assert(diagnostics.skip(i + 1).last() == diagnostics.last());
        assert(diagnostic_lines(diagnostics) =~= diagnostic_lines(diagnostics.take(i))
            + diagnostic_line(diagnostics[i]) + diagnostic_lines(diagnostics.skip(i + 1)));
    }
}

/// Every diagnostic has its line: its name, filled up to the column of the others,
/// and its detail, marked where it could not be had.
pub proof fn law_every_diagnostic_has_its_line(
    diagnostics: Seq<Diagnostic>,
    i: int,
    filled: Seq<char>,
)
    requires
        0 <= i < diagnostics.len(),
        forall|k: int| 0 <= k < filled.len() ==> #[trigger] filled[k] == ' ',
        filled.len() == (if diagnostics[i].name@.len() < 25 {
            26 - diagnostics[i].name@.len()
        } else {
            1
        }),
    ensures
        diagnostics[i].available ==> exists|before: Seq<char>, after: Seq<char>|
            diagnostic_lines(diagnostics) == #[trigger] (before + ("  "@ + diagnostics[i].name@
                + filled + diagnostics[i].detail@ + "\n"@) + after),
        !diagnostics[i].available ==> exists|before: Seq<char>, after: Seq<char>|
            diagnostic_lines(diagnostics) == #[trigger] (before + ("  "@ + diagnostics[i].name@
                + filled + ("unavailable — "@ + diagnostics[i].detail@) + "\n"@) + after),
{
    lemma_diagnostics_split(diagnostics, i);
    let before = diagnostic_lines(diagnostics.take(i));
    let after = diagnostic_lines(diagnostics.skip(i + 1));
    let name = diagnostics[i].name@;
    reveal_strlit(" ");
    assert(padded(name, 25) + " "@ =~= name + filled);
    let detail = if diagnostics[i].available {
        diagnostics[i].detail@
    } else {
        "unavailable — "@ + diagnostics[i].detail@
    };
    assert(diagnostic_line(diagnostics[i]) =~= "  "@ + name + filled + detail + "\n"@);
}

} // verus!
