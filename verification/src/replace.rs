//! Putting a new binary where an old one runs, so that no failure leaves the
//! machine without one.
//!
//! The new binary is staged beside the old one and renamed onto it. Windows
//! cannot rename onto a running executable and can rename one aside, so there
//! the old one is moved away first and put back when the rename fails.

use vstd::prelude::*;

use crate::failure;
use crate::failure::{CliError, ErrorView, Failure};
use crate::release;
use crate::release::display_path;

verus! {

/// The kind of system the files are on.
#[derive(Debug, Clone, Copy, PartialEq, Eq, Structural)]
pub enum Platform {
    Unix,
    Windows,
    Other,
}

/// One operation on the files. What follows it depends on how it ends.
#[derive(Debug, Clone)]
pub enum ReplaceStep {
    /// Remove a staged file that an earlier run left; a failure is ignored.
    ClearStaging,
    /// Copy the new binary beside the old one.
    Stage,
    /// Make the staged binary executable.
    MakeExecutable,
    /// Remove a binary that an earlier run moved aside; a failure is ignored.
    ClearAside,
    /// Ask whether there is a binary to move aside.
    LookForOld,
    /// Rename the old binary aside.
    MoveAside,
    /// Rename the staged binary to its place.
    PlaceNew,
    /// Rename the old binary back, because the rename to its place failed for
    /// this reason; a failure is ignored.
    PutBack { error: String },
    /// Remove the staged binary after a failure; a failure of this is ignored.
    DropStaged { moving_aside: bool, error: String },
    /// Remove the binary that was moved aside; a failure is ignored.
    DropAside,
    /// The new binary is in place.
    Done,
}

/// How an operation ended.
#[derive(Debug, Clone)]
pub enum FileEvent {
    /// It succeeded; asked whether something is there: it is.
    Done,
    /// Asked whether something is there: it is not.
    Absent,
    /// It failed.
    Failed { permission_denied: bool, error: String },
}

/// A failure of one operation.
pub open spec fn operation_error(what: Seq<char>, error: Seq<char>) -> ErrorView {
    failure::error_with(
        Failure::LocalState,
        "cannot "@ + what + ": "@ + error,
        "runner-manager update"@,
    )
}

/// Reports the failure of one operation.
fn operation_failed(what: &str, error: &str) -> (failed: CliError)
    ensures
        failed@ == operation_error(what@, error@),
{
    let mut message = "cannot ".to_owned();
    message.append(what);
    message.append(": ");
    message.append(error);
    CliError::with_remedy(Failure::LocalState, message, "runner-manager update")
}

/// What the machine does first: refuse a destination that is a directory or
/// has no parent, and otherwise start with a clean staging file.
pub open spec fn first_of(
    destination: Seq<char>,
    is_directory: bool,
    has_parent: bool,
) -> Result<ReplaceStep, ErrorView> {
    if is_directory {
        Err(
            failure::error_with(
                Failure::LocalState,
                release::shown_path(destination)
                    + " is a directory, not a file, so it cannot be replaced with a binary."@,
                "remove it and run runner-manager update again"@,
            ),
        )
    } else if !has_parent {
        Err(
            failure::plain_error(
                Failure::LocalState,
                release::shown_path(destination)
                    + " has no parent directory to stage a replacement in"@,
            ),
        )
    } else {
        Ok(ReplaceStep::ClearStaging)
    }
}

/// The operation that follows, or the failure.
pub open spec fn replace_view(next: Result<ReplaceStep, CliError>) -> Result<
    ReplaceStep,
    ErrorView,
> {
    match next {
        Ok(step) => Ok(step),
        Err(error) => Err(error@),
    }
}

/// Begins a replacement.
pub fn begin(destination: &str, is_directory: bool, has_parent: bool) -> (next: Result<
    ReplaceStep,
    CliError,
>)
    ensures
        replace_view(next) == first_of(destination@, is_directory, has_parent),
{
    if is_directory {
        let mut message = display_path(destination);
        message.append(" is a directory, not a file, so it cannot be replaced with a binary.");
        return Err(
            CliError::with_remedy(
                Failure::LocalState,
                message,
                "remove it and run runner-manager update again",
            ),
        );
    }
    if !has_parent {
        let mut message = display_path(destination);
        message.append(" has no parent directory to stage a replacement in");
        return Err(CliError::new(Failure::LocalState, message));
    }
    Ok(ReplaceStep::ClearStaging)
}

/// What follows a staged binary that is ready.
pub open spec fn once_staged(platform: Platform) -> ReplaceStep {
    if platform == Platform::Windows {
        ReplaceStep::ClearAside
    } else {
        ReplaceStep::PlaceNew
    }
}

/// The failure to copy the new binary beside the old one. The likeliest one is
/// a directory that belongs to somebody else.
pub open spec fn stage_error(
    permission_denied: bool,
    directory: Seq<char>,
    error: Seq<char>,
) -> ErrorView {
    if permission_denied {
        failure::error_with(
            Failure::LocalState,
            "cannot write into "@ + release::shown_path(directory)
                + ", so the binary there cannot be replaced: "@ + error,
            "sudo runner-manager update"@,
        )
    } else {
        operation_error("stage the new binary beside the old one"@, error)
    }
}

/// What follows an operation.
pub open spec fn after(
    step: ReplaceStep,
    event: FileEvent,
    platform: Platform,
    directory: Seq<char>,
) -> Result<ReplaceStep, ErrorView> {
    match step {
        ReplaceStep::ClearStaging => Ok(ReplaceStep::Stage),
        ReplaceStep::Stage => match event {
            FileEvent::Failed { permission_denied, error } => Err(
                stage_error(permission_denied, directory, error@),
            ),
            _ => Ok(
                if platform == Platform::Unix {
                    ReplaceStep::MakeExecutable
                } else {
                    once_staged(platform)
                },
            ),
        },
        ReplaceStep::MakeExecutable => match event {
            FileEvent::Failed { error, .. } => Err(
                operation_error("make the new binary executable"@, error@),
            ),
            _ => Ok(once_staged(platform)),
        },
        ReplaceStep::ClearAside => Ok(ReplaceStep::LookForOld),
        ReplaceStep::LookForOld => match event {
            FileEvent::Done => Ok(ReplaceStep::MoveAside),
            _ => Ok(ReplaceStep::PlaceNew),
        },
        ReplaceStep::MoveAside => match event {
            FileEvent::Failed { error, .. } => Ok(
                ReplaceStep::DropStaged { moving_aside: true, error },
            ),
            _ => Ok(ReplaceStep::PlaceNew),
        },
        ReplaceStep::PlaceNew => match event {
            FileEvent::Failed { error, .. } => Ok(
                if platform == Platform::Windows {
                    ReplaceStep::PutBack { error }
                } else {
                    ReplaceStep::DropStaged { moving_aside: false, error }
                },
            ),
            _ => Ok(
                if platform == Platform::Windows {
                    ReplaceStep::DropAside
                } else {
                    ReplaceStep::Done
                },
            ),
        },
        ReplaceStep::PutBack { error } => Ok(
            ReplaceStep::DropStaged { moving_aside: false, error },
        ),
        ReplaceStep::DropStaged { moving_aside, error } => Err(
            if moving_aside {
                operation_error("move the binary being replaced aside"@, error@)
            } else {
                operation_error("put the new binary in place"@, error@)
            },
        ),
        ReplaceStep::DropAside => Ok(ReplaceStep::Done),
        ReplaceStep::Done => Ok(ReplaceStep::Done),
    }
}

/// Decides what follows an operation that ended like this. `directory` is where
/// the binary lives.
pub fn install_over(step: ReplaceStep, event: FileEvent, platform: Platform, directory: &str) -> (next:
    Result<ReplaceStep, CliError>)
    ensures
        replace_view(next) == after(step, event, platform, directory@),
{
    let windows = platform == Platform::Windows;
    match step {
        ReplaceStep::ClearStaging => Ok(ReplaceStep::Stage),
        ReplaceStep::Stage => match event {
            FileEvent::Failed { permission_denied, error } => {
                if permission_denied {
                    let mut message = "cannot write into ".to_owned();
                    message.append(display_path(directory).as_str());
                    message.append(", so the binary there cannot be replaced: ");
                    message.append(error.as_str());
                    Err(
                        CliError::with_remedy(
                            Failure::LocalState,
                            message,
                            "sudo runner-manager update",
                        ),
                    )
                } else {
                    Err(
                        operation_failed(
                            "stage the new binary beside the old one",
                            error.as_str(),
                        ),
                    )
                }
            },
            _ => {
                if platform == Platform::Unix {
                    Ok(ReplaceStep::MakeExecutable)
                } else if windows {
                    Ok(ReplaceStep::ClearAside)
                } else {
                    Ok(ReplaceStep::PlaceNew)
                }
            },
        },
        ReplaceStep::MakeExecutable => match event {
            FileEvent::Failed { error, .. } => Err(
                operation_failed("make the new binary executable", error.as_str()),
            ),
            _ => {
                if windows {
                    Ok(ReplaceStep::ClearAside)
                } else {
                    Ok(ReplaceStep::PlaceNew)
                }
            },
        },
        ReplaceStep::ClearAside => Ok(ReplaceStep::LookForOld),
        ReplaceStep::LookForOld => match event {
            FileEvent::Done => Ok(ReplaceStep::MoveAside),
            _ => Ok(ReplaceStep::PlaceNew),
        },
        ReplaceStep::MoveAside => match event {
            FileEvent::Failed { error, .. } => Ok(
                ReplaceStep::DropStaged { moving_aside: true, error },
            ),
            _ => Ok(ReplaceStep::PlaceNew),
        },
        ReplaceStep::PlaceNew => match event {
            FileEvent::Failed { error, .. } => {
                if windows {
                    Ok(ReplaceStep::PutBack { error })
                } else {
                    Ok(ReplaceStep::DropStaged { moving_aside: false, error })
                }
            },
            _ => {
                if windows {
                    Ok(ReplaceStep::DropAside)
                } else {
                    Ok(ReplaceStep::Done)
                }
            },
        },
        ReplaceStep::PutBack { error } => Ok(
            ReplaceStep::DropStaged { moving_aside: false, error },
        ),
        ReplaceStep::DropStaged { moving_aside, error } => {
            if moving_aside {
                Err(operation_failed("move the binary being replaced aside", error.as_str()))
            } else {
                Err(operation_failed("put the new binary in place", error.as_str()))
            }
        },
        ReplaceStep::DropAside => Ok(ReplaceStep::Done),
        ReplaceStep::Done => Ok(ReplaceStep::Done),
    }
}

// ---------------------------------------------------------------------------
// What becomes of the files
// ---------------------------------------------------------------------------

/// Which binary is at the destination, which one lies aside and which one is
/// staged, where there is one.
pub struct Files {
    pub destination: Option<int>,
    pub aside: Option<int>,
    pub staged: Option<int>,
}

/// What is being replaced: the binary that was there, if one was; what an earlier
/// run left aside; the new binary; and what a copy that fails leaves of it.
pub struct Replacement {
    pub before: Option<int>,
    pub left_aside: Option<int>,
    pub new: int,
    pub partial: Option<int>,
}

/// What an operation that ended like this makes of the files. A rename either
/// happens or leaves everything as it was.
pub open spec fn effect(
    step: ReplaceStep,
    event: FileEvent,
    files: Files,
    what: Replacement,
) -> Files {
    match step {
        ReplaceStep::Stage => Files {
            staged: if event is Failed {
                what.partial
            } else {
                Some(what.new)
            },
            ..files
        },
        _ => if event is Done {
            match step {
                ReplaceStep::ClearStaging | ReplaceStep::DropStaged { .. } => Files {
                    staged: None,
                    ..files
                },
                ReplaceStep::ClearAside | ReplaceStep::DropAside => Files { aside: None, ..files },
                ReplaceStep::MoveAside => Files {
                    destination: None,
                    aside: files.destination,
                    ..files
                },
                ReplaceStep::PlaceNew => Files {
                    destination: files.staged,
                    staged: None,
                    ..files
                },
                ReplaceStep::PutBack { .. } => Files {
                    destination: files.aside,
                    aside: None,
                    ..files
                },
                _ => files,
            }
        } else {
            files
        },
    }
}

/// A whole replacement: every operation ends as its event says.
pub open spec fn run(
    state: Result<ReplaceStep, ErrorView>,
    files: Files,
    events: Seq<FileEvent>,
    platform: Platform,
    directory: Seq<char>,
    what: Replacement,
) -> (Result<ReplaceStep, ErrorView>, Files)
    decreases events.len(),
{
    match state {
        Ok(step) if events.len() > 0 => run(
            after(step, events[0], platform, directory),
            effect(step, events[0], files, what),
            events.skip(1),
            platform,
            directory,
            what,
        ),
        _ => (state, files),
    }
}

/// Whether an event is what a file system answers: only the question whether
/// the old binary is there is answered with a yes or a no, and truthfully; and
/// nothing can be put back where nothing lies aside. Where putting back is
/// `reliable`, whatever lies aside can be put back.
pub open spec fn answers(
    step: ReplaceStep,
    event: FileEvent,
    files: Files,
    reliable: bool,
) -> bool {
    &&& event is Absent ==> step is LookForOld
    &&& step is LookForOld ==> (event is Done <==> files.destination is Some)
    &&& step is PutBack && event is Done ==> files.aside is Some
    &&& step is PutBack && reliable && files.aside is Some ==> event is Done
}

/// Whether every event of a run is what a file system answers.
pub open spec fn truthful(
    state: Result<ReplaceStep, ErrorView>,
    files: Files,
    events: Seq<FileEvent>,
    platform: Platform,
    directory: Seq<char>,
    what: Replacement,
    reliable: bool,
) -> bool
    decreases events.len(),
{
    match state {
        Ok(step) if events.len() > 0 => {
            &&& answers(step, events[0], files, reliable)
            &&& truthful(
                after(step, events[0], platform, directory),
                effect(step, events[0], files, what),
                events.skip(1),
                platform,
                directory,
                what,
                reliable,
            )
        },
        _ => true,
    }
}

/// What a failed replacement leaves: the destination as it was, an absent binary
/// still absent. Only on Windows there are two other ends. A binary that could
/// not be put back still lies aside; and where there was none, one that an
/// earlier run had left aside may have been put there.
pub open spec fn kept(files: Files, platform: Platform, what: Replacement, reliable: bool) -> bool {
    ||| files.destination == what.before
    ||| platform == Platform::Windows && !reliable && what.before is Some
        && files.destination is None && files.aside == what.before
    ||| platform == Platform::Windows && what.before is None && what.left_aside is Some
        && files.destination == what.left_aside
}

/// Whether the old binary has been moved out of the way of the new one.
pub open spec fn out_of_the_way(files: Files, what: Replacement) -> bool {
    &&& files.destination is None
    &&& match what.before {
        Some(_) => files.aside == what.before,
        None => files.aside is None || files.aside == what.left_aside,
    }
}

/// What holds of the files at every point of a replacement.
pub open spec fn in_hand(
    state: Result<ReplaceStep, ErrorView>,
    files: Files,
    platform: Platform,
    what: Replacement,
    reliable: bool,
) -> bool {
    let windows = platform == Platform::Windows;
    let untouched = files.destination == what.before;
    let ready = files.staged == Some(what.new);
    let aside = files.aside is None || files.aside == what.left_aside;
    match state {
        Err(_) => kept(files, platform, what, reliable),
        Ok(step) => match step {
            ReplaceStep::ClearStaging | ReplaceStep::Stage => untouched && aside,
            ReplaceStep::MakeExecutable => untouched && aside && ready,
            ReplaceStep::ClearAside | ReplaceStep::LookForOld => windows && untouched && aside
                && ready,
            ReplaceStep::MoveAside => windows && untouched && aside && ready && what.before is Some,
            ReplaceStep::PlaceNew => ready && if windows {
                out_of_the_way(files, what)
            } else {
                untouched
            },
            ReplaceStep::PutBack { .. } => windows && out_of_the_way(files, what),
            ReplaceStep::DropStaged { .. } => kept(files, platform, what, reliable),
            ReplaceStep::DropAside | ReplaceStep::Done => files.destination == Some(what.new)
                && files.staged is None,
        },
    }
}

/// Every operation keeps a binary in hand.
proof fn lemma_step_keeps_a_binary(
    step: ReplaceStep,
    event: FileEvent,
    files: Files,
    platform: Platform,
    directory: Seq<char>,
    what: Replacement,
    reliable: bool,
)
    requires
        in_hand(Ok(step), files, platform, what, reliable),
        answers(step, event, files, reliable),
    ensures
        in_hand(
            after(step, event, platform, directory),
            effect(step, event, files, what),
            platform,
            what,
            reliable,
        ),
{
}

/// A replacement that fails leaves the destination as it was, whether or not a
/// binary was there, and one that is done has put the new one there and left
/// nothing staged. What may fail on Windows is said by [`kept`]; elsewhere a
/// destination that had a binary is never without one at any point.
pub proof fn law_a_failed_replacement_keeps_the_old_binary(
    state: Result<ReplaceStep, ErrorView>,
    files: Files,
    events: Seq<FileEvent>,
    platform: Platform,
    directory: Seq<char>,
    what: Replacement,
    reliable: bool,
)
    requires
        in_hand(state, files, platform, what, reliable),
        truthful(state, files, events, platform, directory, what, reliable),
    ensures
        ({
            let end = run(state, files, events, platform, directory, what);
            &&& in_hand(end.0, end.1, platform, what, reliable)
            &&& end.0 is Err ==> kept(end.1, platform, what, reliable)
            &&& end.0 is Err && platform != Platform::Windows ==> end.1.destination == what.before
            &&& end.0 is Err && reliable && what.left_aside is None ==> end.1.destination
                == what.before
            &&& end.0 == Ok::<ReplaceStep, ErrorView>(ReplaceStep::Done) ==> end.1.destination
                == Some(what.new) && end.1.staged is None
            &&& platform != Platform::Windows && what.before is Some ==> end.1.destination is Some
        }),
    decreases events.len(),
{
    match state {
        Ok(step) if events.len() > 0 => {
            lemma_step_keeps_a_binary(step, events[0], files, platform, directory, what, reliable);
            law_a_failed_replacement_keeps_the_old_binary(
                after(step, events[0], platform, directory),
                effect(step, events[0], files, what),
                events.skip(1),
                platform,
                directory,
                what,
                reliable,
            );
        },
        _ => {},
    }
}

/// A replacement begins with what is there in hand, whatever the answers will
/// be; a destination that is a directory is refused before anything is touched.
pub proof fn law_a_directory_is_never_replaced(
    destination: Seq<char>,
    is_directory: bool,
    has_parent: bool,
    platform: Platform,
    what: Replacement,
    staged: Option<int>,
    reliable: bool,
)
    ensures
        is_directory ==> first_of(destination, is_directory, has_parent) is Err,
        in_hand(
            first_of(destination, is_directory, has_parent),
            Files { destination: what.before, aside: what.left_aside, staged },
            platform,
            what,
            reliable,
        ),
{
}

/// A replacement is given up only over an operation that failed: copying the new
/// binary, making it executable, moving the old one aside, or putting the new
/// one in place. What fails to be cleared away stops nothing.
pub proof fn law_only_a_failed_operation_gives_up(
    step: ReplaceStep,
    event: FileEvent,
    platform: Platform,
    directory: Seq<char>,
)
    ensures
        ({
            let next = after(step, event, platform, directory);
            &&& next is Err ==> ((step is Stage || step is MakeExecutable) && event is Failed)
                || step is DropStaged
            &&& (step is Stage || step is MakeExecutable) && event is Failed ==> next is Err
            &&& next matches Ok(ReplaceStep::DropStaged { moving_aside, error }) ==> (step
                == (ReplaceStep::PutBack { error }) && !moving_aside) || ((
            event matches FileEvent::Failed { error: reason, .. } && error == reason) && ((step
                is MoveAside && moving_aside) || (step is PlaceNew && !moving_aside && platform
                != Platform::Windows)))
            &&& next matches Ok(ReplaceStep::PutBack { error }) ==> step is PlaceNew && platform
                == Platform::Windows && (event matches FileEvent::Failed { error: reason, .. }
                && error == reason)
            &&& next matches Err(error) ==> error.class == Failure::LocalState
            &&& step matches ReplaceStep::DropStaged { error: reason, .. } ==> (next matches Err(
                error,
            ) && reason@.is_suffix_of(error.message))
        }),
{
    if let ReplaceStep::DropStaged { moving_aside, error } = step {
        let what = if moving_aside {
            "move the binary being replaced aside"@
        } else {
            "put the new binary in place"@
        };
        assert(error@.is_suffix_of("cannot "@ + what + ": "@ + error@));
    }
}

/// What fails to be cleared away: an earlier run's leftovers, and the old binary
/// once the new one is in place.
pub open spec fn cleared_somehow(event: FileEvent) -> bool {
    event is Done || event is Failed
}

/// A replacement in which every operation that counts succeeds puts the new
/// binary in place. On Unix it was made executable first; on Windows the old one
/// was moved aside first, where there was one; and what cannot be cleared away
/// changes nothing of that.
pub proof fn law_a_replacement_that_meets_no_failure_is_done(
    destination: Seq<char>,
    directory: Seq<char>,
    files: Files,
    what: Replacement,
    first: FileEvent,
    second: FileEvent,
    last: FileEvent,
)
    requires
        cleared_somehow(first),
        cleared_somehow(second),
        cleared_somehow(last),
    ensures
        ({
            let begun = first_of(destination, false, true);
            let done = Ok::<ReplaceStep, ErrorView>(ReplaceStep::Done);
            let yes = FileEvent::Done;
            let unix = seq![first, yes, yes, yes];
            let with_old = seq![first, yes, second, yes, yes, yes, last];
            let without_old = seq![first, yes, second, FileEvent::Absent, yes, last];
            let other = seq![first, yes, yes];
            &&& ({
                let end = run(begun, files, unix, Platform::Unix, directory, what);
                end.0 == done && end.1.destination == Some(what.new) && end.1.staged is None
            })
            &&& ({
                let end = run(begun, files, with_old, Platform::Windows, directory, what);
                end.0 == done && end.1.destination == Some(what.new) && end.1.staged is None
            })
            &&& ({
                let end = run(begun, files, without_old, Platform::Windows, directory, what);
                end.0 == done && end.1.destination == Some(what.new) && end.1.staged is None
            })
            &&& ({
                let end = run(begun, files, other, Platform::Other, directory, what);
                end.0 == done && end.1.destination == Some(what.new) && end.1.staged is None
            })
        }),
{
    let yes = FileEvent::Done;
    reveal_with_fuel(run, 8);
    let unix = seq![first, yes, yes, yes];
    assert(unix.skip(1).skip(1).skip(1).skip(1).len() == 0);
    assert(unix.skip(1)[0] == yes && unix.skip(1).skip(1)[0] == yes && unix.skip(1).skip(1).skip(
        1,
    )[0] == yes);
    let other = seq![first, yes, yes];
    assert(other.skip(1)[0] == yes && other.skip(1).skip(1)[0] == yes);
    let with_old = seq![first, yes, second, yes, yes, yes, last];
    assert(with_old.skip(1)[0] == yes);
    assert(with_old.skip(1).skip(1)[0] == second);
    assert(with_old.skip(1).skip(1).skip(1)[0] == yes);
    assert(with_old.skip(1).skip(1).skip(1).skip(1)[0] == yes);
    assert(with_old.skip(1).skip(1).skip(1).skip(1).skip(1)[0] == yes);
    assert(with_old.skip(1).skip(1).skip(1).skip(1).skip(1).skip(1)[0] == last);
    let without_old = seq![first, yes, second, FileEvent::Absent, yes, last];
    assert(without_old.skip(1)[0] == yes);
    assert(without_old.skip(1).skip(1)[0] == second);
    assert(without_old.skip(1).skip(1).skip(1)[0] == FileEvent::Absent);
    assert(without_old.skip(1).skip(1).skip(1).skip(1)[0] == yes);
    assert(without_old.skip(1).skip(1).skip(1).skip(1).skip(1)[0] == last);
}

/// On Unix nothing is put in place that was not made executable, and on Windows
/// nothing before it is known whether an old binary is in the way, and that one
/// is moved aside.
pub proof fn law_nothing_is_placed_before_it_is_ready(
    step: ReplaceStep,
    event: FileEvent,
    platform: Platform,
    directory: Seq<char>,
)
    requires
        !(step is PlaceNew),
        after(step, event, platform, directory) == Ok::<ReplaceStep, ErrorView>(
            ReplaceStep::PlaceNew,
        ),
    ensures
        !(event is Failed) || step is LookForOld,
        platform == Platform::Unix && step is Stage ==> false,
        platform == Platform::Windows ==> (step is LookForOld && !(event is Done))
            || step is MoveAside,
{
}

/// A directory that may not be written to is said to be one, with the way to
/// write to it; every other failure to copy is told as it is.
pub proof fn law_a_denied_copy_asks_for_permission(
    platform: Platform,
    directory: Seq<char>,
    permission_denied: bool,
    error: String,
)
    ensures
        after(
            ReplaceStep::Stage,
            FileEvent::Failed { permission_denied, error },
            platform,
            directory,
        ) matches Err(said) && said.remedy == Some(
            if permission_denied {
                "sudo runner-manager update"@
            } else {
                "runner-manager update"@
            },
        ) && error@.is_suffix_of(said.message),
{
    let denied = "cannot write into "@ + release::shown_path(directory)
        + ", so the binary there cannot be replaced: "@;
    assert(error@.is_suffix_of(denied + error@));
    let plain = "cannot "@ + "stage the new binary beside the old one"@ + ": "@;
    assert(error@.is_suffix_of(plain + error@));
}

/// A replacement that is undone says which of the two moves failed, and why.
pub proof fn law_a_failed_move_is_named(
    event: FileEvent,
    platform: Platform,
    directory: Seq<char>,
    error: String,
)
    ensures
        after(
            ReplaceStep::DropStaged { moving_aside: true, error },
            event,
            platform,
            directory,
        ) matches Err(said) && said.class == Failure::LocalState && said.message
            == "cannot move the binary being replaced aside: "@ + error@,
        after(
            ReplaceStep::DropStaged { moving_aside: false, error },
            event,
            platform,
            directory,
        ) matches Err(said) && said.class == Failure::LocalState && said.message
            == "cannot put the new binary in place: "@ + error@,
        after(ReplaceStep::PutBack { error }, event, platform, directory) == Ok::<
            ReplaceStep,
            ErrorView,
        >(ReplaceStep::DropStaged { moving_aside: false, error }),
{
    reveal_strlit("cannot ");
    reveal_strlit(": ");
    reveal_strlit("move the binary being replaced aside");
    reveal_strlit("put the new binary in place");
    reveal_strlit("cannot move the binary being replaced aside: ");
    reveal_strlit("cannot put the new binary in place: ");
    assert("cannot "@ + "move the binary being replaced aside"@ + ": "@
        =~= "cannot move the binary being replaced aside: "@);
    assert("cannot "@ + "put the new binary in place"@ + ": "@
        =~= "cannot put the new binary in place: "@);
}

} // verus!
