//! The parent that keeps the daemon running: when to restart it, and how long
//! to wait first.

use vstd::prelude::*;

verus! {

/// The first delay, in seconds.
pub const RESTART_DELAY: u64 = 2;

/// The longest delay, in seconds.
pub const MAX_RESTART_DELAY: u64 = 60;

/// A child that lived this many seconds was healthy, whatever ended it.
pub const STABLE_CHILD_UPTIME: u64 = 300;

/// The exit code of a daemon that has swapped its own binary and wants to be
/// started again at once.
pub const UPGRADE_PENDING_EXIT_CODE: i32 = 21;

/// The delay before a restart: two seconds, doubled for every failure after the
/// first, and never more than a minute.
pub open spec fn delay_after(failures: nat) -> nat {
    let doublings: nat = if failures == 0 {
        0
    } else {
        (failures - 1) as nat
    };
    let delay = RESTART_DELAY as nat * vstd::arithmetic::power2::pow2(doublings);
    if delay <= MAX_RESTART_DELAY {
        delay
    } else {
        MAX_RESTART_DELAY as nat
    }
}

/// Past five doublings the delay is over the ceiling.
proof fn lemma_pow2_grows(exponent: nat)
    requires
        exponent >= 5,
    ensures
        vstd::arithmetic::power2::pow2(exponent) >= 32,
    decreases exponent,
{
    vstd::arithmetic::power2::lemma2_to64();
    if exponent > 5 {
        lemma_pow2_grows((exponent - 1) as nat);
        vstd::arithmetic::power2::lemma_pow2_unfold(exponent);
    }
}

/// How many seconds to wait before the next start, after this many failures in
/// a row.
pub fn restart_delay(failures: u32) -> (seconds: u64)
    ensures
        seconds == delay_after(failures as nat),
{
    proof {
        vstd::arithmetic::power2::lemma2_to64();
        if failures > 5 {
            lemma_pow2_grows((failures - 1) as nat);
        }
    }
    if failures <= 1 {
        RESTART_DELAY
    } else if failures == 2 {
        4
    } else if failures == 3 {
        8
    } else if failures == 4 {
        16
    } else if failures == 5 {
        32
    } else {
        MAX_RESTART_DELAY
    }
}

/// How one run of the child ended.
#[derive(Debug, Clone, Copy, PartialEq, Eq, Structural)]
pub enum ChildEnd {
    /// It could not be started or waited for.
    NotRun,
    /// It exited with this code; `None` when a signal ended it.
    Exited { code: Option<i32>, uptime_seconds: u64 },
}

/// What the supervisor does next.
#[derive(Debug, Clone, Copy, PartialEq, Eq, Structural)]
pub enum NextRun {
    /// The child finished its work; so has the supervisor.
    Stop,
    /// Start the child again at once.
    RestartNow,
    /// Start the child again after this many seconds.
    RestartAfter { seconds: u64 },
}

/// The failures in a row after a run that ended like this.
pub open spec fn failures_after(failures: u32, end: ChildEnd) -> u32 {
    match end {
        ChildEnd::NotRun => one_more(failures),
        ChildEnd::Exited { code, uptime_seconds } => if code == Some(0i32) {
            failures
        } else if code == Some(UPGRADE_PENDING_EXIT_CODE) {
            0
        } else if uptime_seconds >= STABLE_CHILD_UPTIME {
            1
        } else {
            one_more(failures)
        },
    }
}

/// One more failure, without running past the counter.
pub open spec fn one_more(failures: u32) -> u32 {
    if failures == u32::MAX {
        u32::MAX
    } else {
        (failures + 1) as u32
    }
}

/// What a run that ended like this asks for.
pub open spec fn run_after(failures: u32, end: ChildEnd) -> NextRun {
    let waits = NextRun::RestartAfter {
        seconds: delay_after(failures_after(failures, end) as nat) as u64,
    };
    match end {
        ChildEnd::NotRun => waits,
        ChildEnd::Exited { code, .. } => if code == Some(0i32) {
            NextRun::Stop
        } else if code == Some(UPGRADE_PENDING_EXIT_CODE) {
            NextRun::RestartNow
        } else {
            waits
        },
    }
}

/// Decides what follows one run of the child: the failures in a row from now
/// on, and the next move.
pub fn after_run(failures: u32, end: ChildEnd) -> (next: (u32, NextRun))
    ensures
        next.0 == failures_after(failures, end),
        next.1 == run_after(failures, end),
{
    let counted: u32 = if failures == u32::MAX {
        u32::MAX
    } else {
        failures + 1
    };
    match end {
        ChildEnd::NotRun => (counted, NextRun::RestartAfter { seconds: restart_delay(counted) }),
        ChildEnd::Exited { code, uptime_seconds } => {
            let exit: i32 = match code {
                Some(value) => value,
                None => 1,
            };
            if exit == 0 {
                (failures, NextRun::Stop)
            } else if exit == UPGRADE_PENDING_EXIT_CODE {
                (0, NextRun::RestartNow)
            } else {
                let now: u32 = if uptime_seconds >= STABLE_CHILD_UPTIME {
                    1
                } else {
                    counted
                };
                (now, NextRun::RestartAfter { seconds: restart_delay(now) })
            }
        },
    }
}

/// What the supervisor was asked to do on its command line.
#[derive(Debug, Clone, Copy, PartialEq, Eq, Structural)]
pub enum Invocation {
    /// Print the version and stop.
    Version,
    /// Nothing to run: a usage error.
    NoProgram,
    /// Run the first argument with the rest.
    Run,
}

/// The invocation that a list of arguments, program name excluded, spells.
pub open spec fn invocation_of(arguments: Seq<Seq<char>>) -> Invocation {
    if arguments.len() == 1 && (arguments[0] == "--version"@ || arguments[0] == "-V"@) {
        Invocation::Version
    } else if arguments.len() == 0 {
        Invocation::NoProgram
    } else {
        Invocation::Run
    }
}

/// Reads the supervisor's own command line.
pub fn read_invocation(arguments: &Vec<String>) -> (invocation: Invocation)
    ensures
        invocation == invocation_of(crate::text::texts(arguments@)),
{
    if arguments.len() == 1 {
        let only = arguments[0].as_str();
        if crate::text::same_text(only, "--version") || crate::text::same_text(only, "-V") {
            return Invocation::Version;
        }
        return Invocation::Run;
    }
    if arguments.len() == 0 {
        Invocation::NoProgram
    } else {
        Invocation::Run
    }
}

/// The wait is never shorter than the first delay and never longer than the
/// ceiling, however often the child has failed.
pub proof fn law_backoff_is_bounded(failures: nat)
    ensures
        RESTART_DELAY <= delay_after(failures) <= MAX_RESTART_DELAY,
{
    vstd::arithmetic::power2::lemma2_to64();
    if failures > 1 {
        lemma_pow2_positive((failures - 1) as nat);
    }
}

/// A power of two is at least one.
proof fn lemma_pow2_positive(exponent: nat)
    ensures
        vstd::arithmetic::power2::pow2(exponent) >= 1,
{
    vstd::arithmetic::power2::lemma_pow2_pos(exponent);
}

/// More failures never shorten the wait.
pub proof fn law_backoff_never_shrinks(fewer: nat, more: nat)
    requires
        fewer <= more,
    ensures
        delay_after(fewer) <= delay_after(more),
    decreases more,
{
    vstd::arithmetic::power2::lemma2_to64();
    if fewer < more {
        law_backoff_never_shrinks(fewer, (more - 1) as nat);
        if more > 1 {
            vstd::arithmetic::power2::lemma_pow2_unfold((more - 1) as nat);
        }
    }
}

/// A daemon that hands over for an upgrade is restarted at once, and the
/// failures before it are forgotten: the next crash waits the first delay.
pub proof fn law_upgrade_handover_resets_backoff(failures: u32, uptime_seconds: u64, end: ChildEnd)
    requires
        end is NotRun || (end matches ChildEnd::Exited { code, .. } && code != Some(0i32) && code
            != Some(UPGRADE_PENDING_EXIT_CODE)),
    ensures
        ({
            let handover = ChildEnd::Exited {
                code: Some(UPGRADE_PENDING_EXIT_CODE),
                uptime_seconds,
            };
            &&& run_after(failures, handover) == NextRun::RestartNow
            &&& run_after(failures_after(failures, handover), end) == NextRun::RestartAfter {
                seconds: RESTART_DELAY,
            }
        }),
{
    vstd::arithmetic::power2::lemma2_to64();
}

/// The first failure waits two seconds, and every one after it twice as long as
/// the one before, up to a minute.
pub proof fn law_each_failure_doubles_the_wait(failures: nat)
    ensures
        delay_after(0) == 2 && delay_after(1) == 2,
        failures >= 1 ==> delay_after(failures + 1) == (if 2 * delay_after(failures) <= 60 {
            2 * delay_after(failures)
        } else {
            60
        }),
{
    vstd::arithmetic::power2::lemma2_to64();
    if failures >= 1 {
        vstd::arithmetic::power2::lemma_pow2_unfold(failures);
    }
}

/// A child that finished is not started again. One that asks for it is started
/// at once, and one that failed is started after the wait of its failures.
pub proof fn law_how_a_child_ends_decides(failures: u32, end: ChildEnd)
    ensures
        ({
            let next = run_after(failures, end);
            let ended = end matches ChildEnd::Exited { code, .. } && code == Some(0i32);
            let asked = end matches ChildEnd::Exited { code, .. } && code == Some(21i32);
            &&& next is Stop <==> ended
            &&& next is RestartNow <==> asked
            &&& !ended && !asked ==> (next matches NextRun::RestartAfter { seconds } && seconds
                == delay_after(failures_after(failures, end) as nat))
        }),
{
    law_backoff_is_bounded(failures_after(failures, end) as nat);
}

/// Failures add up, and the counter stays at its end once it is there. A child
/// that lived for five minutes begins the count anew, one that asked to be
/// started again clears it, and one that finished leaves it.
pub proof fn law_failures_in_a_row_are_counted(failures: u32, end: ChildEnd)
    ensures
        match end {
            ChildEnd::NotRun => failures < u32::MAX ==> failures_after(failures, end) == failures
                + 1,
            ChildEnd::Exited { code: Some(0), .. } => failures_after(failures, end) == failures,
            ChildEnd::Exited { code: Some(21), .. } => failures_after(failures, end) == 0,
            ChildEnd::Exited { uptime_seconds, .. } => {
                &&& uptime_seconds >= 300 ==> failures_after(failures, end) == 1
                &&& uptime_seconds < 300 && failures < u32::MAX ==> failures_after(failures, end)
                    == failures + 1
                &&& uptime_seconds < 300 && failures == u32::MAX ==> failures_after(failures, end)
                    == failures
            },
        },
        end is NotRun && failures == u32::MAX ==> failures_after(failures, end) == failures,
{
}

/// Only a lone question for the version is answered with it, and only an empty
/// command line has nothing to run.
pub proof fn law_everything_else_is_run(arguments: Seq<Seq<char>>)
    ensures
        invocation_of(arguments) is NoProgram <==> arguments.len() == 0,
        invocation_of(arguments) is Version <==> arguments == seq!["--version"@] || arguments
            == seq!["-V"@],
{
    if arguments.len() == 1 {
        assert(arguments =~= seq![arguments[0]]);
    }
    assert(seq!["--version"@].len() == 1 && seq!["-V"@].len() == 1);
    assert(seq!["--version"@][0] == "--version"@ && seq!["-V"@][0] == "-V"@);
}

} // verus!
