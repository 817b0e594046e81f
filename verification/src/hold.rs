//! Keeping a distribution open: the Linux end of the Windows lifecycle task.
//!
//! It makes sure that systemd is usable, starts the unit once, and then does
//! nothing but stay alive until it is told to stop. It never stops the unit:
//! systemd remains its supervisor.

use vstd::prelude::*;

use crate::failure;
use crate::failure::{CliError, ErrorView, Failure};
use crate::text;
use crate::text::{printed, same_text};

verus! {

/// The program that the hold drives. Never a shell.
pub const SYSTEMCTL: &'static str = "systemctl";

/// Why the hold ended.
#[derive(Debug, Clone, PartialEq, Eq)]
pub enum HoldStop {
    /// The operating system asked this process to stop, by the signal of this
    /// name.
    Signal(String),
}

/// Where the hold is.
#[derive(Debug)]
pub enum HoldStep {
    /// Ask systemd how it is.
    AskState,
    /// Find out whether a systemd in this state is usable.
    Judge(String),
    /// Start the unit.
    Start,
    /// Stay alive until told to stop.
    Wait,
    /// Over.
    Released,
}

/// What a step of the hold came to.
#[derive(Debug)]
pub enum HoldEvent {
    /// `systemctl` ran, and printed this.
    Ran { success: bool, stdout: Vec<u8>, stderr: Vec<u8> },
    /// `systemctl` could not be run, for this reason.
    CannotRun(String),
    /// The state is called this, and the unit can be started in it, or not.
    Judged { shown: String, usable: bool },
    /// This process was told to stop.
    Stopped(HoldStop),
    /// Waiting failed.
    Failed(CliError),
}

/// What the hold said, and where it is now.
#[derive(Debug)]
pub struct HoldMove {
    pub said: String,
    pub next: Result<HoldStep, CliError>,
}

/// A step of the hold, by its content.
pub enum HoldView {
    AskState,
    Judge(Seq<char>),
    Start,
    Wait,
    Released,
}

/// What a [`HoldMove`] says.
pub struct HoldMoveView {
    pub said: Seq<char>,
    pub next: Result<HoldView, ErrorView>,
}

impl View for HoldStep {
    type V = HoldView;

    open spec fn view(&self) -> HoldView {
        match self {
            HoldStep::AskState => HoldView::AskState,
            HoldStep::Judge(word) => HoldView::Judge(word@),
            HoldStep::Start => HoldView::Start,
            HoldStep::Wait => HoldView::Wait,
            HoldStep::Released => HoldView::Released,
        }
    }
}

impl View for HoldMove {
    type V = HoldMoveView;

    open spec fn view(&self) -> HoldMoveView {
        HoldMoveView {
            said: self.said@,
            next: match self.next {
                Ok(step) => Ok(step@),
                Err(error) => Err(error@),
            },
        }
    }
}

/// The failure to run `systemctl` at all.
pub open spec fn cannot_run_error(reason: Seq<char>) -> ErrorView {
    failure::error_with(
        Failure::WslProvisioning,
        "cannot run `"@ + SYSTEMCTL@ + "` in this distribution: "@ + reason,
        "runner-manager wsl status --distribution NAME"@,
    )
}

/// Reports that `systemctl` could not be run.
pub fn cannot_run_systemctl(reason: &str) -> (failed: CliError)
    ensures
        failed@ == cannot_run_error(reason@),
{
    let mut message = "cannot run `".to_owned();
    message.append(SYSTEMCTL);
    message.append("` in this distribution: ");
    message.append(reason);
    CliError::with_remedy(
        Failure::WslProvisioning,
        message,
        "runner-manager wsl status --distribution NAME",
    )
}

/// The word that `systemctl` answered: what it printed, or what it complained
/// where it printed nothing.
pub open spec fn answer_of(stdout: Seq<char>, stderr: Seq<char>) -> Seq<char> {
    if stdout.len() == 0 {
        stderr
    } else {
        stdout
    }
}

/// Picks the word that `systemctl` answered out of what it printed. Its exit
/// code is not looked at: `degraded` is an answer too.
pub fn run_systemctl(stdout: String, stderr: String) -> (word: String)
    ensures
        word@ == answer_of(stdout@, stderr@),
{
    if stdout.as_str().is_empty() {
        stderr
    } else {
        stdout
    }
}

/// The refusal of a distribution whose systemd is not usable.
pub open spec fn no_systemd_error(state: Seq<char>, unit: Seq<char>) -> ErrorView {
    failure::error_with(
        Failure::WslProvisioning,
        "this distribution is not running systemd ("@ + state + "), so there is no "@ + unit
            + " to start and no daemon for this hold to keep alive."@,
        "add `systemd=true` under `[boot]` in /etc/wsl.conf, then terminate the distribution so it restarts"@,
    )
}

/// The failure to start the unit.
pub open spec fn cannot_start_error(unit: Seq<char>, complaint: Seq<char>) -> ErrorView {
    failure::error_with(
        Failure::WslProvisioning,
        "cannot start "@ + unit + ": "@ + complaint,
        "runner-manager service status"@,
    )
}

/// Going on in silence.
pub open spec fn hold_on(step: HoldView) -> HoldMoveView {
    HoldMoveView { said: Seq::empty(), next: Ok(step) }
}

/// Giving up.
pub open spec fn give_up(error: ErrorView) -> HoldMoveView {
    HoldMoveView { said: Seq::empty(), next: Err(error) }
}

/// What follows a step of the hold: verify, then start, then wait. An event
/// that does not answer the step leaves the hold where it is.
pub open spec fn hold_after(step: HoldView, event: HoldEvent, unit: Seq<char>) -> HoldMoveView {
    match (step, event) {
        (HoldView::AskState, HoldEvent::CannotRun(reason)) => give_up(cannot_run_error(reason@)),
        (HoldView::AskState, HoldEvent::Ran { stdout, stderr, .. }) => hold_on(
            HoldView::Judge(
                answer_of(
                    text::trimmed(text::lossy_text(stdout@)),
                    text::trimmed(text::lossy_text(stderr@)),
                ),
            ),
        ),
        (HoldView::Judge(_), HoldEvent::Judged { shown, usable }) => if usable {
            hold_on(HoldView::Start)
        } else {
            give_up(no_systemd_error(shown@, unit))
        },
        (HoldView::Start, HoldEvent::CannotRun(reason)) => give_up(cannot_run_error(reason@)),
        (HoldView::Start, HoldEvent::Ran { success, stderr, .. }) => if success {
            HoldMoveView {
                said: "runner-manager: "@ + unit
                    + " is started; holding this distribution open until this process is stopped.\n"@,
                next: Ok(HoldView::Wait),
            }
        } else {
            give_up(cannot_start_error(unit, text::trimmed(text::lossy_text(stderr@))))
        },
        (HoldView::Wait, HoldEvent::Failed(error)) => give_up(error@),
        (HoldView::Wait, HoldEvent::Stopped(HoldStop::Signal(name))) => HoldMoveView {
            said: "runner-manager: "@ + name@ + " received; releasing this distribution. "@ + unit
                + " is left running and systemd remains its supervisor.\n"@,
            next: Ok(HoldView::Released),
        },
        (step, _) => hold_on(step),
    }
}

/// Takes one step of the hold, which begins with [`HoldStep::AskState`].
pub fn hold(step: HoldStep, event: HoldEvent, unit: &str) -> (next: HoldMove)
    ensures
        next@ == hold_after(step@, event, unit@),
{
    match (step, event) {
        (HoldStep::AskState, HoldEvent::CannotRun(reason)) => HoldMove {
            said: String::new(),
            next: Err(cannot_run_systemctl(reason.as_str())),
        },
        (HoldStep::AskState, HoldEvent::Ran { stdout, stderr, .. }) => HoldMove {
            said: String::new(),
            next: Ok(HoldStep::Judge(run_systemctl(printed(&stdout), printed(&stderr)))),
        },
        (HoldStep::Judge(_), HoldEvent::Judged { shown, usable }) => {
            if usable {
                return HoldMove { said: String::new(), next: Ok(HoldStep::Start) };
            }
            let mut message = "this distribution is not running systemd (".to_owned();
            message.append(shown.as_str());
            message.append("), so there is no ");
            message.append(unit);
            message.append(" to start and no daemon for this hold to keep alive.");
            HoldMove {
                said: String::new(),
                next: Err(
                    CliError::with_remedy(
                        Failure::WslProvisioning,
                        message,
                        "add `systemd=true` under `[boot]` in /etc/wsl.conf, then terminate the distribution so it restarts",
                    ),
                ),
            }
        },
        (HoldStep::Start, HoldEvent::CannotRun(reason)) => HoldMove {
            said: String::new(),
            next: Err(cannot_run_systemctl(reason.as_str())),
        },
        (HoldStep::Start, HoldEvent::Ran { success, stderr, .. }) => {
            if success {
                let mut said = "runner-manager: ".to_owned();
                said.append(unit);
                said.append(
                    " is started; holding this distribution open until this process is stopped.\n",
                );
                return HoldMove { said, next: Ok(HoldStep::Wait) };
            }
            let mut message = "cannot start ".to_owned();
            message.append(unit);
            message.append(": ");
            message.append(printed(&stderr).as_str());
            HoldMove {
                said: String::new(),
                next: Err(
                    CliError::with_remedy(
                        Failure::WslProvisioning,
                        message,
                        "runner-manager service status",
                    ),
                ),
            }
        },
        (HoldStep::Wait, HoldEvent::Failed(error)) => HoldMove {
            said: String::new(),
            next: Err(error),
        },
        (HoldStep::Wait, HoldEvent::Stopped(HoldStop::Signal(name))) => {
            let mut said = "runner-manager: ".to_owned();
            said.append(name.as_str());
            said.append(" received; releasing this distribution. ");
            said.append(unit);
            said.append(" is left running and systemd remains its supervisor.\n");
            HoldMove { said, next: Ok(HoldStep::Released) }
        },
        (step, _) => HoldMove { said: String::new(), next: Ok(step) },
    }
}

/// The arguments of `systemctl` at a step, where the step runs it.
pub open spec fn hold_arguments(step: HoldView, unit: Seq<char>) -> Option<Seq<Seq<char>>> {
    match step {
        HoldView::AskState => Some(seq!["is-system-running"@]),
        HoldView::Start => Some(seq!["start"@, unit]),
        _ => None,
    }
}

/// The arguments to give `systemctl` at a step, where the step runs it.
pub fn systemctl_arguments(step: &HoldStep, unit: &str) -> (arguments: Option<Vec<String>>)
    ensures
        match arguments {
            Some(words) => hold_arguments(step@, unit@) == Some(text::texts(words@)),
            None => hold_arguments(step@, unit@) is None,
        },
{
    match step {
        HoldStep::AskState => {
            let words = vec!["is-system-running".to_owned()];
            assert(text::texts(words@) =~= seq!["is-system-running"@]);
            Some(words)
        },
        HoldStep::Start => {
            let words = vec!["start".to_owned(), unit.to_owned()];
            assert(text::texts(words@) =~= seq!["start"@, unit@]);
            Some(words)
        },
        _ => None,
    }
}

/// The refusal to hold anywhere but on Linux.
pub open spec fn not_linux_error(os: Seq<char>) -> ErrorView {
    failure::error_with(
        Failure::UnsupportedHost,
        "`wsl-host hold` runs inside a WSL2 distribution and starts its systemd unit; this is a "@
            + os
            + " build, which has no such unit. It is not a command to type: the Windows lifecycle task `runner-manager wsl install` registers is what runs it."@,
        "runner-manager wsl install --distribution NAME"@,
    )
}

/// Begins the hold, on a build for this operating system.
pub fn dispatch_wsl_host(os: &str) -> (begun: Result<HoldStep, CliError>)
    ensures
        os@ == "linux"@ ==> (begun matches Ok(step) && step@ == HoldView::AskState),
        os@ != "linux"@ ==> (begun matches Err(error) && error@ == not_linux_error(os@)),
{
    if same_text(os, "linux") {
        return Ok(HoldStep::AskState);
    }
    let mut message =
        "`wsl-host hold` runs inside a WSL2 distribution and starts its systemd unit; this is a ".to_owned();
    message.append(os);
    message.append(
        " build, which has no such unit. It is not a command to type: the Windows lifecycle task `runner-manager wsl install` registers is what runs it.",
    );
    Err(
        CliError::with_remedy(
            Failure::UnsupportedHost,
            message,
            "runner-manager wsl install --distribution NAME",
        ),
    )
}

/// The unit is started only where systemd was found usable, and waited for only
/// once it was started.
pub proof fn law_verify_then_start_then_wait(step: HoldView, event: HoldEvent, unit: Seq<char>)
    ensures
        hold_after(step, event, unit).next matches Ok(next) ==> {
            &&& next is Start && !(step is Start) ==> step is Judge && (
            event matches HoldEvent::Judged { usable, .. } && usable)
            &&& next is Wait && !(step is Wait) ==> step is Start && (event matches HoldEvent::Ran {
                success,
                ..
            } && success)
            &&& next is Released && !(step is Released) ==> step is Wait && event is Stopped
        },
{
}

/// No step of the hold asks systemd to stop or restart anything.
pub proof fn law_the_hold_only_asks_and_starts(step: HoldView, unit: Seq<char>)
    ensures
        hold_arguments(step, unit) matches Some(words) ==> words[0] == "is-system-running"@
            || words == seq!["start"@, unit],
        step is Wait || step is Released ==> hold_arguments(step, unit) is None,
{
}

/// The state that is judged is what `systemctl` printed, without the white space
/// around it, or what it complained where it printed nothing. How it exited
/// changes nothing.
pub proof fn law_the_state_is_what_systemctl_printed(
    success: bool,
    stdout: Vec<u8>,
    stderr: Vec<u8>,
    unit: Seq<char>,
)
    ensures
        ({
            let printed = text::trimmed(text::lossy_text(stdout@));
            let complained = text::trimmed(text::lossy_text(stderr@));
            let moved = hold_after(
                HoldView::AskState,
                HoldEvent::Ran { success, stdout, stderr },
                unit,
            );
            &&& moved.said.len() == 0
            &&& printed.len() > 0 ==> moved.next == Ok::<HoldView, ErrorView>(
                HoldView::Judge(printed),
            )
            &&& printed.len() == 0 ==> moved.next == Ok::<HoldView, ErrorView>(
                HoldView::Judge(complained),
            )
        }),
{
}

/// A systemd that is usable has the unit started, and one that is not ends the
/// hold with a refusal that names the state and the unit.
pub proof fn law_an_unusable_systemd_is_refused(
    word: Seq<char>,
    shown: String,
    usable: bool,
    unit: Seq<char>,
)
    ensures
        ({
            let moved = hold_after(
                HoldView::Judge(word),
                HoldEvent::Judged { shown, usable },
                unit,
            );
            &&& moved.said.len() == 0
            &&& usable ==> moved.next == Ok::<HoldView, ErrorView>(HoldView::Start)
            &&& !usable ==> (moved.next matches Err(error) && error.class
                == Failure::WslProvisioning && error.remedy is Some && exists|
                a: Seq<char>,
                b: Seq<char>,
                c: Seq<char>,
            | error.message == #[trigger] (a + shown@ + b + unit + c))
        }),
{
    let a = "this distribution is not running systemd ("@;
    let b = "), so there is no "@;
    let c = " to start and no daemon for this hold to keep alive."@;
    assert(no_systemd_error(shown@, unit).message == a + shown@ + b + unit + c);
}

/// A unit that was started is waited on, and one that was not ends the hold with
/// what `systemctl` complained.
pub proof fn law_only_a_started_unit_is_held(
    success: bool,
    stdout: Vec<u8>,
    stderr: Vec<u8>,
    unit: Seq<char>,
)
    ensures
        ({
            let moved = hold_after(
                HoldView::Start,
                HoldEvent::Ran { success, stdout, stderr },
                unit,
            );
            &&& success ==> moved.next == Ok::<HoldView, ErrorView>(HoldView::Wait) && moved.said
                == "runner-manager: "@ + unit
                + " is started; holding this distribution open until this process is stopped.\n"@
            &&& !success ==> moved.said.len() == 0 && (moved.next matches Err(error)
                && error.class == Failure::WslProvisioning && error.message == "cannot start "@
                + unit + ": "@ + text::trimmed(text::lossy_text(stderr@)))
        }),
{
}

/// The hold lasts until this process is told to stop, and then names what told it
/// and the unit that goes on running. A failure to wait is passed on.
pub proof fn law_a_hold_ends_by_a_signal(name: String, error: CliError, unit: Seq<char>)
    ensures
        ({
            let moved = hold_after(
                HoldView::Wait,
                HoldEvent::Stopped(HoldStop::Signal(name)),
                unit,
            );
            &&& moved.next == Ok::<HoldView, ErrorView>(HoldView::Released)
            &&& moved.said == "runner-manager: "@ + name@
                + " received; releasing this distribution. "@ + unit
                + " is left running and systemd remains its supervisor.\n"@
        }),
        hold_after(HoldView::Wait, HoldEvent::Failed(error), unit).next == Err::<
            HoldView,
            ErrorView,
        >(error@),
        hold_after(HoldView::Wait, HoldEvent::Failed(error), unit).said.len() == 0,
{
}

/// Where `systemctl` runs and cannot be run, the hold ends with the reason.
/// Anything that does not answer a step leaves the hold where it is, in silence.
pub proof fn law_only_an_answer_moves_the_hold(step: HoldView, event: HoldEvent, unit: Seq<char>)
    ensures
        ({
            let moved = hold_after(step, event, unit);
            let runs = step is AskState || step is Start;
            let answered = runs && (event is Ran || event is CannotRun) || step is Judge
                && event is Judged || step is Wait && (event is Stopped || event is Failed);
            &&& !answered ==> moved.next == Ok::<HoldView, ErrorView>(step) && moved.said.len()
                == 0
            &&& event matches HoldEvent::CannotRun(reason) ==> (runs ==> (
            moved.next matches Err(error) && error.class == Failure::WslProvisioning
                && error.message == "cannot run `"@ + SYSTEMCTL@ + "` in this distribution: "@
                + reason@) && moved.said.len() == 0)
        }),
{
}

/// The state is asked for before the unit is started, and nothing else is run.
pub proof fn law_a_step_runs_its_own_command(step: HoldView, unit: Seq<char>)
    ensures
        match step {
            HoldView::AskState => hold_arguments(step, unit) == Some(seq!["is-system-running"@]),
            HoldView::Start => hold_arguments(step, unit) == Some(seq!["start"@, unit]),
            HoldView::Judge(_) | HoldView::Wait | HoldView::Released => hold_arguments(step, unit)
                is None,
        },
{
}

/// A build for another system is refused as a host that this does not run on, by
/// its name.
pub proof fn law_another_system_is_no_host(os: Seq<char>)
    ensures
        ({
            let error = not_linux_error(os);
            &&& error.class == Failure::UnsupportedHost
            &&& error.remedy == Some("runner-manager wsl install --distribution NAME"@)
            &&& exists|before: Seq<char>, after: Seq<char>|
                error.message == #[trigger] (before + os + after)
        }),
{
    let before =
        "`wsl-host hold` runs inside a WSL2 distribution and starts its systemd unit; this is a "@;
    let after = " build, which has no such unit. It is not a command to type: the Windows lifecycle task `runner-manager wsl install` registers is what runs it."@;
    assert(not_linux_error(os).message == before + os + after);
}

} // verus!
