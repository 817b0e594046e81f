//! The commands about a managed distribution that are not an install or a
//! status report: listing what there is, letting go of it, and signing in for
//! it.

use vstd::prelude::*;

use crate::failure;
use crate::failure::{CliError, ErrorView, Failure};
use crate::proxy::DEFAULT_LINUX_DESTINATION;
use crate::text;
use crate::text::push_decimal;
use crate::wsl_error;
use crate::wsl_error::{wsl_failure, WslError, WslErrorKind};
use crate::wsl_status::CommandEnd;

verus! {

// ---------------------------------------------------------------------------
// Listing
// ---------------------------------------------------------------------------

/// What reading a distribution's record came to.
#[derive(Debug, Clone)]
pub enum RecordRead {
    /// There is one, and it names this version.
    Managed(String),
    /// There is none.
    NotManaged,
    /// There is one that cannot be read, for this reason.
    Unreadable(String),
}

/// One distribution that this machine has.
#[derive(Debug, Clone)]
pub struct ListedDistribution {
    pub name: String,
    pub wsl_version: u8,
    pub state: String,
    pub default: bool,
    pub record: RecordRead,
}

/// Whether a distribution is managed, in words.
pub open spec fn managed_text(record: RecordRead) -> Seq<char> {
    match record {
        RecordRead::Managed(version) => "managed, runner-manager "@ + version@,
        RecordRead::NotManaged => "not managed"@,
        RecordRead::Unreadable(reason) => "record unreadable: "@ + reason@,
    }
}

/// The row of one distribution.
pub open spec fn row_text(entry: ListedDistribution) -> Seq<char> {
    "  "@ + entry.name@ + "  WSL"@ + text::decimal(entry.wsl_version as nat) + ", "@ + entry.state@
        + (if entry.default {
        ", default"@
    } else {
        Seq::empty()
    }) + " ("@ + managed_text(entry.record) + ")\n"@
}

/// The rows of several distributions, in order.
pub open spec fn rows_text(entries: Seq<ListedDistribution>) -> Seq<char>
    decreases entries.len(),
{
    if entries.len() == 0 {
        Seq::empty()
    } else {
        rows_text(entries.drop_last()) + row_text(entries.last())
    }
}

/// The rows that could not be read, in order.
pub open spec fn unreadable_rows_text(rows: Seq<Seq<char>>) -> Seq<char>
    decreases rows.len(),
{
    if rows.len() == 0 {
        Seq::empty()
    } else {
        unreadable_rows_text(rows.drop_last()) + ("  <unreadable>  "@ + rows.last() + "\n"@)
    }
}

/// The list of distributions.
pub open spec fn list_text(entries: Seq<ListedDistribution>, unreadable: Seq<Seq<char>>) -> Seq<
    char,
> {
    if entries.len() == 0 && unreadable.len() == 0 {
        "WSL distributions\n\nThis machine has no WSL distributions installed.\n"@
    } else {
        "WSL distributions\n"@ + rows_text(entries) + unreadable_rows_text(unreadable)
            + "\nNames are matched exactly. `runner-manager wsl install --distribution NAME` makes one a second runner host.\n"@
    }
}

/// Writes the row of one distribution.
fn write_row(entry: &ListedDistribution) -> (row: String)
    ensures
        row@ == row_text(*entry),
{
    let mut row = "  ".to_owned();
    row.append(entry.name.as_str());
    row.append("  WSL");
    push_decimal(&mut row, entry.wsl_version as u64);
    row.append(", ");
    row.append(entry.state.as_str());
    if entry.default {
        row.append(", default");
    } else {
        assert(row@ + Seq::<char>::empty() =~= row@);
    }
    row.append(" (");
    let mut managed = String::new();
    match &entry.record {
        RecordRead::Managed(version) => {
            managed = "managed, runner-manager ".to_owned();
            managed.append(version.as_str());
        },
        RecordRead::NotManaged => {
            managed = "not managed".to_owned();
        },
        RecordRead::Unreadable(reason) => {
            managed = "record unreadable: ".to_owned();
            managed.append(reason.as_str());
        },
    }
    row.append(managed.as_str());
    row.append(")\n");
    row
}

/// Renders the list of distributions. A record that cannot be read is reported
/// in its own row and hides nothing.
pub fn list(entries: &Vec<ListedDistribution>, unreadable: &Vec<String>) -> (said: String)
    ensures
        said@ == list_text(entries@, text::texts(unreadable@)),
{
    if entries.len() == 0 && unreadable.len() == 0 {
        return "WSL distributions\n\nThis machine has no WSL distributions installed.\n".to_owned();
    }
    let mut rows = String::new();
    let mut i: usize = 0;
    while i < entries.len()
        invariant
            i <= entries@.len(),
            rows@ == rows_text(entries@.take(i as int)),
        decreases entries.len() - i,
    {
        rows.append(write_row(&entries[i]).as_str());
        assert(entries@.take(i as int + 1).drop_last() == entries@.take(i as int));
        i = i + 1;
    }
    assert(entries@.take(i as int) == entries@);
    let ghost all = text::texts(unreadable@);
    let mut others = String::new();
    let mut k: usize = 0;
    while k < unreadable.len()
        invariant
            k <= unreadable@.len(),
            all == text::texts(unreadable@),
            others@ == unreadable_rows_text(all.take(k as int)),
        decreases unreadable.len() - k,
    {
        let mut row = "  <unreadable>  ".to_owned();
        row.append(unreadable[k].as_str());
        row.append("\n");
        others.append(row.as_str());
        assert(all.take(k as int + 1).drop_last() == all.take(k as int));
        assert(all.take(k as int + 1).last() == unreadable@[k as int]@);
        k = k + 1;
    }
    assert(all.take(k as int) == all);
    let mut said = "WSL distributions\n".to_owned();
    said.append(rows.as_str());
    said.append(others.as_str());
    said.append(
        "\nNames are matched exactly. `runner-manager wsl install --distribution NAME` makes one a second runner host.\n",
    );
    said
}

/// The rows of a list come apart at any entry.
proof fn lemma_rows_split(entries: Seq<ListedDistribution>, i: int)
    requires
        0 <= i < entries.len(),
    ensures
        rows_text(entries) == rows_text(entries.take(i)) + row_text(entries[i]) + rows_text(
            entries.skip(i + 1),
        ),
    decreases entries.len(),
{
    let last = entries.len() - 1;
    if i == last {
        assert(entries.drop_last() == entries.take(i));
        assert(entries.skip(i + 1) == Seq::<ListedDistribution>::empty());
    } else {
        lemma_rows_split(entries.drop_last(), i);
        assert(entries.drop_last().take(i) == entries.take(i));
        assert(entries.skip(i + 1).drop_last() == entries.drop_last().skip(i + 1));
        assert(entries.skip(i + 1).last() == entries.last());
        assert(rows_text(entries) =~= rows_text(entries.take(i)) + row_text(entries[i])
            + rows_text(entries.skip(i + 1)));
    }
}

/// Every distribution has its row in the list, whatever the records of the
/// others are like.
pub proof fn law_every_distribution_is_listed(
    entries: Seq<ListedDistribution>,
    unreadable: Seq<Seq<char>>,
    i: int,
)
    requires
        0 <= i < entries.len(),
    ensures
        exists|before: Seq<char>, after: Seq<char>|
            list_text(entries, unreadable) == before + row_text(entries[i]) + after,
{
    lemma_rows_split(entries, i);
    let before = "WSL distributions\n"@ + rows_text(entries.take(i));
    let after = rows_text(entries.skip(i + 1)) + unreadable_rows_text(unreadable)
        + "\nNames are matched exactly. `runner-manager wsl install --distribution NAME` makes one a second runner host.\n"@;
    assert(list_text(entries, unreadable) =~= before + row_text(entries[i]) + after);
}

// ---------------------------------------------------------------------------
// Letting go
// ---------------------------------------------------------------------------

/// One thing that a detach does.
#[derive(Debug, Clone, Copy, PartialEq, Eq, Structural)]
pub enum DetachStep {
    /// Derive the lifecycle task's name.
    NameTask,
    /// Stop the task, so that the hold is not left running without it.
    StopTask,
    /// Remove the task.
    RemoveTask,
    /// Remove the provider record.
    RemoveRecord,
    /// Over.
    Detached,
}

/// What a step of a detach came to.
#[derive(Debug)]
pub enum DetachEvent {
    /// It succeeded.
    Done,
    /// The task was stopped, or was not running.
    Stopped(bool),
    /// The task of this name was removed, or was not there.
    TaskRemoved { name: String, removed: bool },
    /// The record was removed, or was not there.
    RecordRemoved(bool),
    /// The host refused.
    Refused(WslError),
}

/// How far a detach is.
#[derive(Debug)]
pub struct Detaching {
    pub step: DetachStep,
    pub stopped: bool,
    pub removed: bool,
    pub task_name: String,
}

/// What a detach said, and how far it is now.
#[derive(Debug)]
pub struct DetachMove {
    pub said: String,
    pub next: Result<Detaching, CliError>,
}

/// What a [`DetachMove`] says.
pub struct DetachMoveView {
    pub said: Seq<char>,
    pub next: Result<Detaching, ErrorView>,
}

impl View for DetachMove {
    type V = DetachMoveView;

    open spec fn view(&self) -> DetachMoveView {
        DetachMoveView {
            said: self.said@,
            next: match self.next {
                Ok(state) => Ok(state),
                Err(error) => Err(error@),
            },
        }
    }
}

/// What a detach leaves alone, and the commands that would undo the Linux half.
pub open spec fn left_alone_text(distribution: Seq<char>) -> Seq<char> {
    "Nothing inside "@ + distribution
        + " was changed. Its runner-manager, its systemd unit, its credential, its policies and its workspaces are all still there, and the distribution itself is still registered with WSL.\n\nTo undo the Linux half as well, run these inside it:\n  wsl --distribution "@
        + distribution + " --user root -- runner-manager service uninstall\n  wsl --distribution "@
        + distribution + " --user root -- runner-manager auth logout\n  wsl --distribution "@
        + distribution + " --user root -- rm "@ + DEFAULT_LINUX_DESTINATION@ + "\n"@
}

/// Writes what a detach leaves alone.
pub fn write_what_detach_left_alone(out: &mut String, distribution: &str)
    ensures
        final(out)@ == old(out)@ + left_alone_text(distribution@),
{
    let mut said = "Nothing inside ".to_owned();
    said.append(distribution);
    said.append(
        " was changed. Its runner-manager, its systemd unit, its credential, its policies and its workspaces are all still there, and the distribution itself is still registered with WSL.\n\nTo undo the Linux half as well, run these inside it:\n  wsl --distribution ",
    );
    said.append(distribution);
    said.append(" --user root -- runner-manager service uninstall\n  wsl --distribution ");
    said.append(distribution);
    said.append(" --user root -- runner-manager auth logout\n  wsl --distribution ");
    said.append(distribution);
    said.append(" --user root -- rm ");
    said.append(DEFAULT_LINUX_DESTINATION);
    said.append("\n");
    out.append(said.as_str());
}

/// What became of the lifecycle task.
pub open spec fn task_fate(stopped: bool, removed: bool) -> Seq<char> {
    if !removed {
        "was not registered"@
    } else if stopped {
        "stopped and removed"@
    } else {
        "removed"@
    }
}

/// The report of a detach.
pub open spec fn detach_text(distribution: Seq<char>, state: Detaching, record_removed: bool) -> Seq<
    char,
> {
    "runner-manager wsl detach\n  distribution              "@ + distribution
        + "\n  lifecycle task            "@ + state.task_name@ + " ("@ + task_fate(
        state.stopped,
        state.removed,
    ) + ")\n  provider record           "@ + (if record_removed {
        "removed"@
    } else {
        "was not there"@
    }) + "\n\n"@ + left_alone_text(distribution)
}

/// Going on in silence.
pub open spec fn detaching(state: Detaching) -> DetachMoveView {
    DetachMoveView { said: Seq::empty(), next: Ok(state) }
}

/// What follows a step of a detach. A task that is not there is no failure: a
/// detach converges. An event that does not answer the step leaves the detach
/// where it is.
pub open spec fn detach_after(
    distribution: Seq<char>,
    state: Detaching,
    event: DetachEvent,
) -> DetachMoveView {
    match (state.step, event) {
        (DetachStep::StopTask, DetachEvent::Refused(source)) if source.kind
            == WslErrorKind::NoSuchTask => detaching(
            Detaching { stopped: false, step: DetachStep::RemoveTask, ..state },
        ),
        (_, DetachEvent::Refused(source)) => DetachMoveView {
            said: Seq::empty(),
            next: Err(wsl_error::reported(source)),
        },
        (DetachStep::NameTask, DetachEvent::Done) => detaching(
            Detaching { step: DetachStep::StopTask, ..state },
        ),
        (DetachStep::StopTask, DetachEvent::Stopped(stopped)) => detaching(
            Detaching { stopped, step: DetachStep::RemoveTask, ..state },
        ),
        (DetachStep::RemoveTask, DetachEvent::TaskRemoved { name, removed }) => detaching(
            Detaching { task_name: name, removed, step: DetachStep::RemoveRecord, ..state },
        ),
        (DetachStep::RemoveRecord, DetachEvent::RecordRemoved(record_removed)) => DetachMoveView {
            said: detach_text(distribution, state, record_removed),
            next: Ok(Detaching { step: DetachStep::Detached, ..state }),
        },
        _ => detaching(state),
    }
}

impl Detaching {
    /// Begins a detach.
    pub fn begin() -> (state: Detaching)
        ensures
            state.step == DetachStep::NameTask,
            !state.stopped,
            !state.removed,
            state.task_name@.len() == 0,
    {
        Detaching {
            step: DetachStep::NameTask,
            stopped: false,
            removed: false,
            task_name: String::new(),
        }
    }
}

/// Takes one step of a detach.
pub fn detach(distribution: &str, state: Detaching, event: DetachEvent) -> (next: DetachMove)
    ensures
        next@ == detach_after(distribution@, state, event),
{
    let mut now = state;
    match (now.step, event) {
        (step, DetachEvent::Refused(source)) => {
            if step == DetachStep::StopTask && source.kind == WslErrorKind::NoSuchTask {
                now.stopped = false;
                now.step = DetachStep::RemoveTask;
                return DetachMove { said: String::new(), next: Ok(now) };
            }
            DetachMove { said: String::new(), next: Err(wsl_failure(&source)) }
        },
        (DetachStep::NameTask, DetachEvent::Done) => {
            now.step = DetachStep::StopTask;
            DetachMove { said: String::new(), next: Ok(now) }
        },
        (DetachStep::StopTask, DetachEvent::Stopped(stopped)) => {
            now.stopped = stopped;
            now.step = DetachStep::RemoveTask;
            DetachMove { said: String::new(), next: Ok(now) }
        },
        (DetachStep::RemoveTask, DetachEvent::TaskRemoved { name, removed }) => {
            now.task_name = name;
            now.removed = removed;
            now.step = DetachStep::RemoveRecord;
            DetachMove { said: String::new(), next: Ok(now) }
        },
        (DetachStep::RemoveRecord, DetachEvent::RecordRemoved(record_removed)) => {
            let mut said = "runner-manager wsl detach\n  distribution              ".to_owned();
            said.append(distribution);
            said.append("\n  lifecycle task            ");
            said.append(now.task_name.as_str());
            said.append(" (");
            if !now.removed {
                said.append("was not registered");
            } else if now.stopped {
                said.append("stopped and removed");
            } else {
                said.append("removed");
            }
            said.append(")\n  provider record           ");
            if record_removed {
                said.append("removed");
            } else {
                said.append("was not there");
            }
            said.append("\n\n");
            write_what_detach_left_alone(&mut said, distribution);
            now.step = DetachStep::Detached;
            DetachMove { said, next: Ok(now) }
        },
        _ => DetachMove { said: String::new(), next: Ok(now) },
    }
}

/// Where four answers in a row leave a detach, and what it says last.
pub open spec fn detached_by(
    distribution: Seq<char>,
    state: Detaching,
    events: Seq<DetachEvent>,
) -> DetachMoveView
    decreases events.len(),
{
    if events.len() == 0 {
        detaching(state)
    } else if events.len() == 1 {
        detach_after(distribution, state, events[0])
    } else {
        match detach_after(distribution, state, events[0]).next {
            Ok(next) => detached_by(distribution, next, events.drop_first()),
            Err(error) => DetachMoveView { said: Seq::empty(), next: Err(error) },
        }
    }
}

/// A detach where nothing is registered and nothing recorded succeeds, and says
/// so.
pub proof fn law_a_detach_converges(
    distribution: Seq<char>,
    state: Detaching,
    missing: WslError,
    name: String,
)
    requires
        state.step == DetachStep::NameTask,
        missing.kind == WslErrorKind::NoSuchTask,
    ensures
        ({
            let events = seq![
                DetachEvent::Done,
                DetachEvent::Refused(missing),
                DetachEvent::TaskRemoved { name, removed: false },
                DetachEvent::RecordRemoved(false),
            ];
            let end = detached_by(distribution, state, events);
            &&& end.next matches Ok(last) && last.step == DetachStep::Detached
            &&& end.said == detach_text(
                distribution,
                Detaching {
                    step: DetachStep::RemoveRecord,
                    stopped: false,
                    removed: false,
                    task_name: name,
                },
                false,
            )
        }),
{
    let events = seq![
        DetachEvent::Done,
        DetachEvent::Refused(missing),
        DetachEvent::TaskRemoved { name, removed: false },
        DetachEvent::RecordRemoved(false),
    ];
    let s1 = Detaching { step: DetachStep::StopTask, ..state };
    let s2 = Detaching { stopped: false, step: DetachStep::RemoveTask, ..s1 };
    let s3 = Detaching { task_name: name, removed: false, step: DetachStep::RemoveRecord, ..s2 };
    let e1 = events.drop_first();
    let e2 = e1.drop_first();
    let e3 = e2.drop_first();
    assert(e1[0] == DetachEvent::Refused(missing));
    assert(e2[0] == DetachEvent::TaskRemoved { name, removed: false });
    assert(e3[0] == DetachEvent::RecordRemoved(false));
    assert(e3.len() == 1);
    assert(detached_by(distribution, s3, e3) == detach_after(distribution, s3, e3[0]));
    assert(detached_by(distribution, s2, e2) == detached_by(distribution, s3, e3));
    assert(detached_by(distribution, s1, e1) == detached_by(distribution, s2, e2));
}

/// The task is stopped before it is removed, and the record goes last.
pub proof fn law_the_task_is_stopped_before_it_is_removed(
    distribution: Seq<char>,
    state: Detaching,
    event: DetachEvent,
)
    ensures
        detach_after(distribution, state, event).next matches Ok(next) ==> {
            &&& next.step == DetachStep::RemoveTask && state.step != DetachStep::RemoveTask
                ==> state.step == DetachStep::StopTask
            &&& next.step == DetachStep::RemoveRecord && state.step != DetachStep::RemoveRecord
                ==> state.step == DetachStep::RemoveTask
            &&& next.step == DetachStep::Detached && state.step != DetachStep::Detached
                ==> state.step == DetachStep::RemoveRecord
        },
{
}

// ---------------------------------------------------------------------------
// Handing a credential over
// ---------------------------------------------------------------------------

/// When the daemon that reads a credential starts.
#[derive(Debug, Clone, Copy, PartialEq, Eq, Structural)]
pub enum StartAt {
    Boot,
    Login,
}

/// Why a credential did not arrive.
#[derive(Debug, Clone)]
pub enum SecretSinkError {
    /// It could not be handed over.
    Undeliverable { destination: String, reason: String },
    /// The receiver refused it.
    Refused { destination: String, reason: String },
}

/// The one door that a credential goes through: the standard input of
/// `auth receive` inside a distribution. The command line is made of what the
/// sink was built with, and never of the credential.
#[derive(Debug, Clone)]
pub struct WslSecretSink {
    pub distribution: String,
    pub binary: String,
    pub start_at: StartAt,
    /// How many credentials were taken.
    pub delivered: usize,
}

/// How a start mode is written.
pub open spec fn start_at_text(start_at: StartAt) -> Seq<char> {
    match start_at {
        StartAt::Boot => "boot"@,
        StartAt::Login => "login"@,
    }
}

/// What the destination of a sink is called.
pub open spec fn destination_text(sink: WslSecretSink) -> Seq<char> {
    sink.binary@ + " in "@ + sink.distribution@
}

/// What a handover comes to: `settled`, and the sink as it is then.
pub open spec fn settles(
    before: WslSecretSink,
    end: CommandEnd,
    after: WslSecretSink,
    settled: Result<(), SecretSinkError>,
) -> bool {
    &&& after.distribution == before.distribution
    &&& after.binary == before.binary
    &&& after.start_at == before.start_at
    &&& match end {
        CommandEnd::CannotRun(why) => {
            &&& settled matches Err(SecretSinkError::Undeliverable { destination, reason })
                && destination@ == destination_text(before) && reason@ == why@
            &&& after.delivered == before.delivered
        },
        CommandEnd::Ran { success, diagnostic, .. } => if success {
            settled is Ok && after.delivered == before.delivered + 1
        } else {
            &&& settled matches Err(SecretSinkError::Refused { destination, reason })
                && destination@ == destination_text(before) && reason@ == diagnostic@
            &&& after.delivered == before.delivered
        },
    }
}

impl WslSecretSink {
    /// A sink into one distribution, that nothing went through yet.
    pub fn new(distribution: &str, binary: &str, start_at: StartAt) -> (sink: WslSecretSink)
        ensures
            sink.distribution@ == distribution@,
            sink.binary@ == binary@,
            sink.start_at == start_at,
            sink.delivered == 0,
    {
        WslSecretSink {
            distribution: distribution.to_owned(),
            binary: binary.to_owned(),
            start_at,
            delivered: 0,
        }
    }

    /// How many credentials were taken.
    pub fn delivered(&self) -> (count: usize)
        ensures
            count == self.delivered,
    {
        self.delivered
    }

    /// What the destination is called, in a failure.
    fn destination(&self) -> (destination: String)
        ensures
            destination@ == destination_text(*self),
    {
        let mut destination = self.binary.clone();
        destination.append(" in ");
        destination.append(self.distribution.as_str());
        destination
    }

    /// The value of `--start-at`.
    pub fn start_at_token(&self) -> (token: &'static str)
        ensures
            token@ == start_at_text(self.start_at),
    {
        match self.start_at {
            StartAt::Boot => "boot",
            StartAt::Login => "login",
        }
    }

    /// The command that receives a credential, program first.
    pub fn receive_command(&self) -> (command: Vec<String>)
        ensures
            text::texts(command@) == seq![
                self.binary@,
                "auth"@,
                "receive"@,
                "--start-at"@,
                start_at_text(self.start_at),
            ],
    {
        let command = vec![
            self.binary.clone(),
            "auth".to_owned(),
            "receive".to_owned(),
            "--start-at".to_owned(),
            self.start_at_token().to_owned(),
        ];
        assert(text::texts(command@) =~= seq![
            self.binary@,
            "auth"@,
            "receive"@,
            "--start-at"@,
            start_at_text(self.start_at),
        ]);
        command
    }

    /// Settles a handover by how the receiver ended: it was taken, refused, or
    /// never handed over.
    pub fn settle(&mut self, end: &CommandEnd) -> (settled: Result<(), SecretSinkError>)
        requires
            old(self).delivered < usize::MAX,
        ensures
            settles(*old(self), *end, *final(self), settled),
    {
        match end {
            CommandEnd::CannotRun(why) => Err(
                SecretSinkError::Undeliverable {
                    destination: self.destination(),
                    reason: why.clone(),
                },
            ),
            CommandEnd::Ran { success, diagnostic, .. } => {
                if !*success {
                    return Err(
                        SecretSinkError::Refused {
                            destination: self.destination(),
                            reason: diagnostic.clone(),
                        },
                    );
                }
                self.delivered = self.delivered + 1;
                Ok(())
            },
        }
    }
}

// ---------------------------------------------------------------------------
// Signing in for a distribution
// ---------------------------------------------------------------------------

/// One thing that a sign-in does.
#[derive(Debug)]
pub enum LoginStep {
    /// Ask whether the distribution can hold a credential at all.
    Preflight,
    /// Run the device flow, into this sink.
    Broker(WslSecretSink),
    /// Over.
    SignedIn,
}

/// What a step of a sign-in came to.
#[derive(Debug)]
pub enum LoginEvent {
    /// The distribution of this name can hold one.
    Ready(String),
    /// The host refused.
    Refused(WslError),
    /// A credential was issued and taken; this describes it.
    Issued(String),
    /// The device flow failed.
    Failed(CliError),
}

/// What a sign-in said, and where it is now.
#[derive(Debug)]
pub struct LoginMove {
    pub said: String,
    pub next: Result<LoginStep, CliError>,
}

/// What a sign-in says before the device flow.
pub open spec fn signing_in_text(distribution: Seq<char>) -> Seq<char> {
    "Signing in for the WSL host "@ + distribution
        + ". The credential this issues is independent of this machine's own: GitHub invalidates both halves of a pair when either renews, so two daemons cannot share one.\n"@
}

/// What a sign-in says of a credential that was handed over.
pub open spec fn handed_over_text(brokered: Seq<char>, distribution: Seq<char>) -> Seq<char> {
    "\nStored in "@ + distribution + "'s own machine credential store. "@ + brokered
        + "\nNothing was written on this machine: the document went straight to the distribution's `auth receive` on a pipe.\n"@
}

/// Writes what became of a credential, and nothing of the credential itself.
pub fn report_brokered_credential(out: &mut String, brokered: &str, distribution: &str)
    ensures
        final(out)@ == old(out)@ + handed_over_text(brokered@, distribution@),
{
    let mut said = "\nStored in ".to_owned();
    said.append(distribution);
    said.append("'s own machine credential store. ");
    said.append(brokered);
    said.append(
        "\nNothing was written on this machine: the document went straight to the distribution's `auth receive` on a pipe.\n",
    );
    out.append(said.as_str());
}

/// The start mode of a sign-in: as asked, and at boot where nothing was asked.
pub open spec fn start_mode(asked: Option<StartAt>) -> StartAt {
    match asked {
        Some(start_at) => start_at,
        None => StartAt::Boot,
    }
}

/// What a step of a sign-in comes to: what is said, and the next step or the
/// failure.
pub open spec fn logs_in(
    step: LoginStep,
    event: LoginEvent,
    asked: Option<StartAt>,
    next: LoginMove,
) -> bool {
    match (step, event) {
        (LoginStep::Preflight, LoginEvent::Ready(name)) => next.said@ == signing_in_text(name@)
            && (next.next matches Ok(LoginStep::Broker(sink)) && sink.distribution@ == name@
            && sink.binary@ == DEFAULT_LINUX_DESTINATION@ && sink.start_at == start_mode(asked)
            && sink.delivered == 0),
        (LoginStep::Preflight, LoginEvent::Refused(source)) => next.said@.len() == 0 && (
        next.next matches Err(error) && error@ == wsl_error::reported(source)),
        (LoginStep::Broker(sink), LoginEvent::Issued(brokered)) => next.said@
            == handed_over_text(brokered@, sink.distribution@) && (next.next matches Ok(last)
            && last is SignedIn),
        (LoginStep::Broker(_), LoginEvent::Failed(failed)) => next.said@.len() == 0 && (
        next.next matches Err(error) && error@ == failed@),
        (step, _) => next.said@.len() == 0 && next.next == Ok::<LoginStep, CliError>(step),
    }
}

/// Takes one step of a sign-in for a distribution. Nothing is issued before the
/// distribution was found able to hold it. An event that does not answer the
/// step leaves the sign-in where it is.
pub fn brokered_login(step: LoginStep, event: LoginEvent, asked: Option<StartAt>) -> (next: LoginMove)
    ensures
        logs_in(step, event, asked, next),
{
    match (step, event) {
        (LoginStep::Preflight, LoginEvent::Ready(name)) => {
            let mut said = "Signing in for the WSL host ".to_owned();
            said.append(name.as_str());
            said.append(
                ". The credential this issues is independent of this machine's own: GitHub invalidates both halves of a pair when either renews, so two daemons cannot share one.\n",
            );
            let start_at = match asked {
                Some(start_at) => start_at,
                None => StartAt::Boot,
            };
            LoginMove {
                said,
                next: Ok(
                    LoginStep::Broker(
                        WslSecretSink::new(name.as_str(), DEFAULT_LINUX_DESTINATION, start_at),
                    ),
                ),
            }
        },
        (LoginStep::Preflight, LoginEvent::Refused(source)) => LoginMove {
            said: String::new(),
            next: Err(wsl_failure(&source)),
        },
        (LoginStep::Broker(sink), LoginEvent::Issued(brokered)) => {
            let mut said = String::new();
            report_brokered_credential(&mut said, brokered.as_str(), sink.distribution.as_str());
            assert(said@ =~= handed_over_text(brokered@, sink.distribution@));
            LoginMove { said, next: Ok(LoginStep::SignedIn) }
        },
        (LoginStep::Broker(_), LoginEvent::Failed(failed)) => LoginMove {
            said: String::new(),
            next: Err(failed),
        },
        (step, _) => LoginMove { said: String::new(), next: Ok(step) },
    }
}

// ---------------------------------------------------------------------------
// Failures at the edge of an install
// ---------------------------------------------------------------------------

/// Reports that the Windows account of the lifecycle task is not known.
pub fn unknown_principal(reason: &str) -> (failed: CliError)
    ensures
        failed@ == failure::error_with(
            Failure::WslProvisioning,
            "cannot decide which Windows account the lifecycle task runs as: "@ + reason@,
            "runner-manager wsl install --distribution NAME   (from an interactive session)"@,
        ),
{
    let mut message =
        "cannot decide which Windows account the lifecycle task runs as: ".to_owned();
    message.append(reason);
    CliError::with_remedy(
        Failure::WslProvisioning,
        message,
        "runner-manager wsl install --distribution NAME   (from an interactive session)",
    )
}

/// Reports that the status document could not be rendered.
pub fn cannot_render(reason: &str) -> (failed: CliError)
    ensures
        failed@ == failure::plain_error(
            Failure::Unclassified,
            "cannot render this status document: "@ + reason@,
        ),
{
    let mut message = "cannot render this status document: ".to_owned();
    message.append(reason);
    CliError::new(Failure::Unclassified, message)
}

/// A listed distribution is told by its name, its WSL version and its state, by
/// whether it is the default one, and by what its record says.
pub proof fn law_a_row_tells_the_distribution(
    entries: Seq<ListedDistribution>,
    unreadable: Seq<Seq<char>>,
    i: int,
    marked: Seq<char>,
    recorded: Seq<char>,
)
    requires
        0 <= i < entries.len(),
        entries[i].default ==> marked == ", default"@,
        !entries[i].default ==> marked.len() == 0,
        match entries[i].record {
            RecordRead::Managed(version) => recorded == "managed, runner-manager "@ + version@,
            RecordRead::NotManaged => recorded == "not managed"@,
            RecordRead::Unreadable(reason) => recorded == "record unreadable: "@ + reason@,
        },
    ensures
        exists|before: Seq<char>, after: Seq<char>|
            list_text(entries, unreadable) == #[trigger] (before + ("  "@ + entries[i].name@
                + "  WSL"@ + text::decimal(entries[i].wsl_version as nat) + ", "@
                + entries[i].state@ + marked + " ("@ + recorded + ")\n"@) + after),
{
    law_every_distribution_is_listed(entries, unreadable, i);
    let row = "  "@ + entries[i].name@ + "  WSL"@ + text::decimal(entries[i].wsl_version as nat)
        + ", "@ + entries[i].state@ + marked + " ("@ + recorded + ")\n"@;
    if !entries[i].default {
        assert(marked =~= Seq::<char>::empty());
    }
    assert(row_text(entries[i]) == row);
    let (before, after) = choose|before: Seq<char>, after: Seq<char>|
        list_text(entries, unreadable) == before + row_text(entries[i]) + after;
    assert(list_text(entries, unreadable) == before + row + after);
}

/// The rows of the entries that cannot be read, split at one of them.
proof fn lemma_unreadable_rows_split(rows: Seq<Seq<char>>, i: int)
    requires
        0 <= i < rows.len(),
    ensures
        unreadable_rows_text(rows) == unreadable_rows_text(rows.take(i)) + ("  <unreadable>  "@
            + rows[i] + "\n"@) + unreadable_rows_text(rows.skip(i + 1)),
    decreases rows.len(),
{
    let last = rows.len() - 1;
    if i == last {
        assert(rows.drop_last() == rows.take(i));
        assert(rows.skip(i + 1) == Seq::<Seq<char>>::empty());
    } else {
        lemma_unreadable_rows_split(rows.drop_last(), i);
        assert(rows.drop_last().take(i) == rows.take(i));
        assert(rows.skip(i + 1).drop_last() == rows.drop_last().skip(i + 1));
        assert(rows.skip(i + 1).last() == rows.last());
        assert(unreadable_rows_text(rows) =~= unreadable_rows_text(rows.take(i)) + (
        "  <unreadable>  "@ + rows[i] + "\n"@) + unreadable_rows_text(rows.skip(i + 1)));
    }
}

/// A row of the table that cannot be read is listed as it is, behind every row
/// that can.
pub proof fn law_an_unreadable_row_is_listed(
    entries: Seq<ListedDistribution>,
    unreadable: Seq<Seq<char>>,
    i: int,
)
    requires
        0 <= i < unreadable.len(),
    ensures
        exists|before: Seq<char>, after: Seq<char>|
            list_text(entries, unreadable) == #[trigger] (before + ("  <unreadable>  "@
                + unreadable[i] + "\n"@) + after),
{
    lemma_unreadable_rows_split(unreadable, i);
    let before = "WSL distributions\n"@ + rows_text(entries) + unreadable_rows_text(
        unreadable.take(i),
    );
    let after = unreadable_rows_text(unreadable.skip(i + 1))
        + "\nNames are matched exactly. `runner-manager wsl install --distribution NAME` makes one a second runner host.\n"@;
    assert(list_text(entries, unreadable) =~= before + ("  <unreadable>  "@ + unreadable[i]
        + "\n"@) + after);
}

/// A detach names the task, stops it, removes it and removes the record, and
/// keeps what each of these came to. An answer to another step changes nothing.
pub proof fn law_a_detach_keeps_what_each_step_came_to(
    distribution: Seq<char>,
    state: Detaching,
    event: DetachEvent,
)
    requires
        !(event is Refused),
    ensures
        ({
            let moved = detach_after(distribution, state, event);
            match event {
                DetachEvent::Done => moved.next == Ok::<Detaching, ErrorView>(
                    if state.step is NameTask {
                        Detaching { step: DetachStep::StopTask, ..state }
                    } else {
                        state
                    },
                ),
                DetachEvent::Stopped(stopped) => moved.next == Ok::<Detaching, ErrorView>(
                    if state.step is StopTask {
                        Detaching { step: DetachStep::RemoveTask, stopped, ..state }
                    } else {
                        state
                    },
                ),
                DetachEvent::TaskRemoved { name, removed } => moved.next == Ok::<
                    Detaching,
                    ErrorView,
                >(
                    if state.step is RemoveTask {
                        Detaching {
                            step: DetachStep::RemoveRecord,
                            task_name: name,
                            removed,
                            ..state
                        }
                    } else {
                        state
                    },
                ),
                DetachEvent::RecordRemoved(_) => moved.next == Ok::<Detaching, ErrorView>(
                    if state.step is RemoveRecord {
                        Detaching { step: DetachStep::Detached, ..state }
                    } else {
                        state
                    },
                ),
                DetachEvent::Refused(_) => true,
            }
        }),
        !(state.step is RemoveRecord && event is RecordRemoved) ==> detach_after(
            distribution,
            state,
            event,
        ).said.len() == 0,
{
}

/// A refusal ends a detach and is reported as it came. One is forgiven: that
/// there is no task to stop.
pub proof fn law_only_a_missing_task_is_forgiven(
    distribution: Seq<char>,
    state: Detaching,
    source: WslError,
)
    ensures
        ({
            let moved = detach_after(distribution, state, DetachEvent::Refused(source));
            let missing = state.step is StopTask && source.kind == WslErrorKind::NoSuchTask;
            &&& moved.said.len() == 0
            &&& missing ==> moved.next == Ok::<Detaching, ErrorView>(
                Detaching { step: DetachStep::RemoveTask, stopped: false, ..state },
            )
            &&& !missing ==> moved.next == Err::<Detaching, ErrorView>(
                wsl_error::reported(source),
            )
        }),
{
}

/// The last words of a detach: the distribution, the task and whether it was
/// there and was stopped, whether there was a record, and that nothing inside
/// was touched.
pub proof fn law_a_detach_reports_what_it_did(
    distribution: Seq<char>,
    state: Detaching,
    record_removed: bool,
)
    requires
        state.step is RemoveRecord,
    ensures
        ({
            let said = detach_after(
                distribution,
                state,
                DetachEvent::RecordRemoved(record_removed),
            ).said;
            let task = "runner-manager wsl detach\n  distribution              "@ + distribution
                + "\n  lifecycle task            "@ + state.task_name@ + " ("@;
            let fate = match (state.removed, state.stopped) {
                (false, _) => "was not registered"@,
                (true, true) => "stopped and removed"@,
                (true, false) => "removed"@,
            };
            let record = match record_removed {
                true => "removed"@,
                false => "was not there"@,
            };
            let report = task + fate + ")\n  provider record           "@ + record + "\n\n"@;
            &&& said.len() > report.len()
            &&& said.take(report.len() as int) == report
            &&& said.skip(report.len() as int) == left_alone_text(distribution)
        }),
{
    let said = detach_after(distribution, state, DetachEvent::RecordRemoved(record_removed)).said;
    let report = "runner-manager wsl detach\n  distribution              "@ + distribution
        + "\n  lifecycle task            "@ + state.task_name@ + " ("@ + task_fate(
        state.stopped,
        state.removed,
    ) + ")\n  provider record           "@ + (if record_removed {
        "removed"@
    } else {
        "was not there"@
    }) + "\n\n"@;
    reveal_strlit("Nothing inside ");
    assert(said =~= report + left_alone_text(distribution));
    assert(said.take(report.len() as int) =~= report);
    assert(said.skip(report.len() as int) =~= left_alone_text(distribution));
}

/// What a detach leaves alone is told with the three commands that undo it, in
/// the order in which they have to run, each addressed to that distribution.
pub proof fn law_what_is_left_alone_can_be_undone(distribution: Seq<char>)
    ensures
        ({
            let run = "  wsl --distribution "@ + distribution + " --user root -- "@;
            let undo = run + "runner-manager service uninstall\n"@ + run
                + "runner-manager auth logout\n"@ + run + "rm /usr/local/bin/runner-manager\n"@;
            exists|before: Seq<char>|
                left_alone_text(distribution) == #[trigger] (before + undo)
        }),
{
    reveal_strlit("  wsl --distribution ");
    reveal_strlit(" --user root -- ");
    reveal_strlit("runner-manager service uninstall\n");
    reveal_strlit("runner-manager auth logout\n");
    reveal_strlit("rm /usr/local/bin/runner-manager\n");
    reveal_strlit("/usr/local/bin/runner-manager");
    reveal_strlit(" --user root -- runner-manager service uninstall\n  wsl --distribution ");
    reveal_strlit(" --user root -- runner-manager auth logout\n  wsl --distribution ");
    reveal_strlit(" --user root -- rm ");
    reveal_strlit("\n");
    reveal_strlit(
        " was changed. Its runner-manager, its systemd unit, its credential, its policies and its workspaces are all still there, and the distribution itself is still registered with WSL.\n\nTo undo the Linux half as well, run these inside it:\n  wsl --distribution ",
    );
    let kept = " was changed. Its runner-manager, its systemd unit, its credential, its policies and its workspaces are all still there, and the distribution itself is still registered with WSL.\n\nTo undo the Linux half as well, run these inside it:\n  wsl --distribution "@;
    let to = "  wsl --distribution "@;
    let run = to + distribution + " --user root -- "@;
    let undo = run + "runner-manager service uninstall\n"@ + run + "runner-manager auth logout\n"@
        + run + "rm /usr/local/bin/runner-manager\n"@;
    let before = "Nothing inside "@ + distribution + kept.take(kept.len() - to.len());
    assert(kept =~= kept.take(kept.len() - to.len()) + to);
    assert(" --user root -- runner-manager service uninstall\n  wsl --distribution "@ =~= " --user root -- "@
        + "runner-manager service uninstall\n"@ + to);
    assert(" --user root -- runner-manager auth logout\n  wsl --distribution "@ =~= " --user root -- "@
        + "runner-manager auth logout\n"@ + to);
    assert(" --user root -- rm "@ + DEFAULT_LINUX_DESTINATION@ + "\n"@ =~= " --user root -- "@
        + "rm /usr/local/bin/runner-manager\n"@);
    assert(left_alone_text(distribution) =~= before + undo);
}

/// A credential that was taken is counted, and nothing else is. A receiver that
/// refuses is told from one that could not be reached, in its own words.
pub proof fn law_a_credential_is_counted_when_it_is_taken(
    before: WslSecretSink,
    end: CommandEnd,
    after: WslSecretSink,
    settled: Result<(), SecretSinkError>,
)
    requires
        before.delivered < usize::MAX,
        settles(before, end, after, settled),
    ensures
        settled is Ok <==> (end matches CommandEnd::Ran { success, .. } && success),
        after.delivered == before.delivered + (if settled is Ok {
            1int
        } else {
            0
        }),
        after.distribution == before.distribution && after.binary == before.binary
            && after.start_at == before.start_at,
        end matches CommandEnd::CannotRun(why) ==> (settled matches Err(
            SecretSinkError::Undeliverable { destination, reason },
        ) && reason@ == why@ && destination@ == before.binary@ + " in "@ + before.distribution@),
        end matches CommandEnd::Ran { success, diagnostic, .. } ==> (!success ==> (
        settled matches Err(SecretSinkError::Refused { destination, reason }) && reason@
            == diagnostic@ && destination@ == before.binary@ + " in "@ + before.distribution@)),
{
}

/// A start mode is written as its one word.
pub proof fn law_a_start_mode_has_its_word(start_at: StartAt)
    ensures
        start_at_text(start_at) == "boot"@ <==> start_at is Boot,
        start_at_text(start_at) == "login"@ <==> start_at is Login,
{
    reveal_strlit("boot");
    reveal_strlit("login");
    assert("boot"@.len() != "login"@.len());
}

/// Nothing is issued before the distribution was found able to hold it, and what
/// is issued goes to that distribution, for the start that was asked for.
pub proof fn law_a_credential_goes_where_it_can_be_held(
    step: LoginStep,
    event: LoginEvent,
    asked: Option<StartAt>,
    moved: LoginMove,
)
    requires
        logs_in(step, event, asked, moved),
    ensures
        step is Preflight ==> (moved.next matches Ok(LoginStep::Broker(sink)) ==> (
        event matches LoginEvent::Ready(name) && sink.distribution@ == name@ && sink.binary@
            == "/usr/local/bin/runner-manager"@ && sink.delivered == 0 && sink.start_at == (
        match asked {
            Some(StartAt::Login) => StartAt::Login,
            _ => StartAt::Boot,
        }))),
        step is Preflight && event is Ready ==> (moved.next matches Ok(next) && next is Broker),
        moved.next matches Ok(LoginStep::SignedIn) ==> step is SignedIn || (step is Broker
            && event is Issued),
        step is Broker && event is Issued ==> (moved.next matches Ok(next) && next is SignedIn),
{
}

/// A sign-in that fails says why, in the words of what failed, and says nothing
/// else. An answer to another step changes nothing.
pub proof fn law_a_failed_sign_in_says_why(
    step: LoginStep,
    event: LoginEvent,
    asked: Option<StartAt>,
    moved: LoginMove,
)
    requires
        logs_in(step, event, asked, moved),
    ensures
        moved.next is Err <==> (step is Preflight && event is Refused) || (step is Broker
            && event is Failed),
        step is Preflight ==> (event matches LoginEvent::Refused(source) ==> (
        moved.next matches Err(error) && error@ == wsl_error::reported(source))),
        step is Broker ==> (event matches LoginEvent::Failed(failed) ==> (
        moved.next matches Err(error) && error@ == failed@)),
        moved.said@.len() > 0 <==> (step is Preflight && event is Ready) || (step is Broker
            && event is Issued),
        !(step is Preflight && (event is Ready || event is Refused)) && !(step is Broker && (
        event is Issued || event is Failed)) ==> moved.next == Ok::<LoginStep, CliError>(step),
        step matches LoginStep::Broker(sink) ==> (event matches LoginEvent::Issued(brokered) ==> (
        exists|a: Seq<char>, b: Seq<char>, c: Seq<char>| moved.said@ == #[trigger] (a
            + sink.distribution@ + b + brokered@ + c))),
{
    reveal_strlit("Signing in for the WSL host ");
    reveal_strlit("\nStored in ");
    if let (LoginStep::Broker(sink), LoginEvent::Issued(brokered)) = (step, event) {
        let a = "\nStored in "@;
        let b = "'s own machine credential store. "@;
        let c = "\nNothing was written on this machine: the document went straight to the distribution's `auth receive` on a pipe.\n"@;
        assert(moved.said@ == a + sink.distribution@ + b + brokered@ + c);
    }
}

} // verus!
