//! The supervisor's pauses and decisions.

use std::time::Duration;

use runner_manager::supervisor::{
    after_run, read_invocation, restart_delay, ChildEnd, Invocation, NextRun,
    STABLE_CHILD_UPTIME, UPGRADE_PENDING_EXIT_CODE,
};

fn delay(failures: u32) -> Duration {
    Duration::from_secs(restart_delay(failures))
}

#[test]
fn crash_restart_backoff_is_bounded() {
    assert_eq!(delay(1), Duration::from_secs(2));
    assert_eq!(delay(2), Duration::from_secs(4));
    assert_eq!(delay(6), Duration::from_secs(60));
    assert_eq!(delay(u32::MAX), Duration::from_secs(60));
}

#[test]
fn a_run_decides_the_next() {
    let crash = ChildEnd::Exited {
        code: Some(3),
        uptime_seconds: 1,
    };
    assert_eq!(
        after_run(0, crash),
        (1, NextRun::RestartAfter { seconds: 2 })
    );
    assert_eq!(
        after_run(4, crash),
        (5, NextRun::RestartAfter { seconds: 32 })
    );
    assert_eq!(
        after_run(u32::MAX, crash),
        (u32::MAX, NextRun::RestartAfter { seconds: 60 })
    );
    let finished = ChildEnd::Exited {
        code: Some(0),
        uptime_seconds: 1,
    };
    assert_eq!(after_run(2, finished), (2, NextRun::Stop));
    let upgrade = ChildEnd::Exited {
        code: Some(UPGRADE_PENDING_EXIT_CODE),
        uptime_seconds: 1,
    };
    assert_eq!(after_run(2, upgrade), (0, NextRun::RestartNow));
    let stable = ChildEnd::Exited {
        code: None,
        uptime_seconds: STABLE_CHILD_UPTIME,
    };
    assert_eq!(
        after_run(9, stable),
        (1, NextRun::RestartAfter { seconds: 2 })
    );
    assert_eq!(
        after_run(1, ChildEnd::NotRun),
        (2, NextRun::RestartAfter { seconds: 4 })
    );
}

#[test]
fn an_invocation_is_read_from_its_arguments() {
    let words = |list: &[&str]| list.iter().map(|word| word.to_string()).collect::<Vec<String>>();
    assert_eq!(read_invocation(&words(&["--version"])), Invocation::Version);
    assert_eq!(read_invocation(&words(&["-V"])), Invocation::Version);
    assert_eq!(read_invocation(&words(&[])), Invocation::NoProgram);
    assert_eq!(read_invocation(&words(&["daemon", "run"])), Invocation::Run);
}
