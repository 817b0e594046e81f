//! Runner roots and workspaces: what is counted, refused, changed and said.

use std::path::Path;

use runner_manager::failure::{CliError, Failure};
use runner_manager::workspace::{
    host_affected_attempts, host_root, policy_affected_attempts, repository_workspace,
    scope_token, slot_leases, write_trust_warning, AffectedAttempts, HostRoot, RootSource,
    RunnerAttempt, ScaleTarget, TargetScope, WorkspaceKind, WorkspacePolicy,
    PERSISTENT_TRUST_WARNING,
};
use runner_manager::workspace_change::{
    check_root, find_policy, leftover_note, parse_root, preflight_against_everything,
    registered_service, request_policy, retained_between, retained_root, root_changed,
    service_access_warning, service_may_be_denied, set_host_runner_root,
    set_repository_workspace, workspace_changed, ChangeEvent, ChangeStep, InstallRead, PolicyRow,
    RegisteredService, RootChange, RootOwner, ServiceAccessWarning, StartMode, StoreRefusal,
    StoreWrite, WorkspaceChange,
};
use runner_manager::workspace_report::{
    write_root_change, write_service_access_warning, write_workspace_change, Emphasis, Styling,
};

// ---------------------------------------------------------------------------
// The service that may be denied
// ---------------------------------------------------------------------------

#[test]
fn a_boot_service_pointed_off_the_startup_volume_is_warned_about() {
    assert!(
        service_may_be_denied(StartMode::Boot, true),
        "a boot-mode daemon is the one identity that cannot ask for consent"
    );
}

#[test]
fn no_install_record_means_no_registered_service() {
    assert!(
        matches!(
            registered_service(InstallRead::Missing),
            RegisteredService::NotRegistered
        ),
        "only the install record says a service is registered"
    );
}

#[test]
fn a_record_that_cannot_be_read_is_not_taken_for_none() {
    assert!(matches!(
        registered_service(InstallRead::NotPermitted),
        RegisteredService::Unreadable
    ));
    match registered_service(InstallRead::Found {
        start_mode: StartMode::Login,
        binary: "/state/bin/rm".to_string(),
    }) {
        RegisteredService::Known { start_mode, binary } => {
            assert_eq!(start_mode, StartMode::Login);
            assert_eq!(binary, "/state/bin/rm");
        }
        other => panic!("{other:?}"),
    }
}

#[test]
fn an_unknown_program_is_described_rather_than_guessed() {
    let mut text = String::new();
    write_service_access_warning(
        &mut text,
        &Styling::plain(),
        &ServiceAccessWarning { program: None },
        false,
    );

    assert!(
        text.contains("service status"),
        "an unknown path must be described, not omitted: {text}"
    );
    assert!(
        !text.contains("bin/runner-manager"),
        "a guessed path is worse than none -- granting it changes nothing: {text}"
    );
    assert!(
        !text.contains("window that just opened"),
        "nothing opened, so nothing may claim it did: {text}"
    );
}

#[test]
fn a_known_program_and_an_open_window_are_named() {
    let mut text = String::new();
    let styling = Styling {
        caution: Emphasis {
            before: "<c>".to_string(),
            after: "</c>".to_string(),
        },
        step: Emphasis::plain(),
        code: Emphasis::plain(),
    };
    write_service_access_warning(
        &mut text,
        &styling,
        &ServiceAccessWarning {
            program: Some("/state/bin/runner-manager".to_string()),
        },
        true,
    );
    assert!(text.contains("/state/bin/runner-manager"), "{text}");
    assert!(text.contains("window that just opened"), "{text}");
    assert!(text.contains("<c>"), "{text}");
}

#[test]
fn every_other_combination_is_left_alone() {
    assert!(
        !service_may_be_denied(StartMode::Boot, false),
        "the startup disk is not gated at all"
    );
    assert!(
        !service_may_be_denied(StartMode::Login, true),
        "a login-mode agent runs as the operator, in a session that can still prompt"
    );
    assert!(
        !service_may_be_denied(StartMode::Login, false),
        "nothing to warn about"
    );
}

#[test]
fn a_warning_needs_a_service_and_a_gated_volume() {
    let known = || RegisteredService::Known {
        start_mode: StartMode::Boot,
        binary: "/b".to_string(),
    };
    assert_eq!(
        service_access_warning(true, known(), StartMode::Login)
            .expect("a boot service on a gated volume")
            .program
            .as_deref(),
        Some("/b")
    );
    assert!(service_access_warning(false, known(), StartMode::Boot).is_none());
    assert!(
        service_access_warning(true, RegisteredService::NotRegistered, StartMode::Boot).is_none()
    );
}

// ---------------------------------------------------------------------------
// Counting
// ---------------------------------------------------------------------------

fn an_attempt(terminal: bool) -> RunnerAttempt {
    RunnerAttempt {
        id: "a1".to_string(),
        state: if terminal { "failed" } else { "allocated" }.to_string(),
        terminal,
        slot: None,
    }
}

#[test]
fn the_two_counts_follow_the_domains_own_terminal_predicate() {
    let attempts = vec![an_attempt(false), an_attempt(false), an_attempt(true)];
    let counts = AffectedAttempts::of(&attempts);
    assert_eq!(counts.active, 2);
    assert_eq!(counts.cleanup_blocked, 1);
    assert_eq!(
        counts.total(),
        3,
        "the total is what the store's fence is given, so it must be the whole uncleaned \
         set and not just the active half"
    );
    assert!(!counts.is_empty());
    assert!(AffectedAttempts::default().is_empty());
}

#[test]
fn a_count_that_cannot_be_read_is_a_failure() {
    let counted = host_affected_attempts(Ok(vec![an_attempt(true)])).expect("readable");
    assert_eq!(counted.cleanup_blocked, 1);
    let failed = host_affected_attempts(Err("locked".to_string())).expect_err("unreadable");
    assert_eq!(failed.class(), Failure::LocalState);
    assert!(failed.message().contains("locked"));
    assert!(policy_affected_attempts(Err("locked".to_string())).is_err());
}

#[test]
fn the_refusal_names_both_counts_separately() {
    let only_active = AffectedAttempts {
        active: 1,
        cleanup_blocked: 0,
    };
    let text = only_active.refusal("the host runner root");
    assert!(text.contains("1 active"), "{text}");
    assert!(text.contains("0 awaiting cleanup"), "{text}");
    assert!(text.contains("Nothing was changed."), "{text}");

    let only_blocked = AffectedAttempts {
        active: 0,
        cleanup_blocked: 2,
    };
    let text = only_blocked.refusal("the workspace setting for octo/repo");
    assert!(text.contains("0 active"), "{text}");
    assert!(text.contains("2 awaiting cleanup"), "{text}");
    assert!(text.contains("octo/repo"), "{text}");
}

#[test]
fn a_lease_is_an_attempt_that_holds_a_slot() {
    let mut holding = an_attempt(true);
    holding.slot = Some(2);
    let leases = slot_leases(Ok(vec![an_attempt(false), holding])).expect("readable");
    assert_eq!(leases.len(), 1);
    assert_eq!(leases[0].slot, 2);
    assert!(leases[0].cleanup_blocked);
}

// ---------------------------------------------------------------------------
// Roots
// ---------------------------------------------------------------------------

#[test]
fn the_source_has_one_spelling_for_people_and_one_for_scripts() {
    assert_eq!(RootSource::PlatformDefault.as_str(), "platform-default");
    assert_eq!(RootSource::PlatformDefault.as_token(), "platform_default");
    assert_eq!(RootSource::Configured.as_str(), "configured");
    assert_eq!(RootSource::Configured.as_token(), "configured");
    assert_eq!(RootSource::Configured.as_str().to_string(), "configured");
    for source in [RootSource::PlatformDefault, RootSource::Configured] {
        assert!(
            !source.as_token().contains('-'),
            "every other enumerated value in status --json is snake_case: {}",
            source.as_token()
        );
    }
}

fn root_text(leaf: &str) -> String {
    format!("/srv/{leaf}")
}

#[test]
fn a_configured_root_is_its_own_effective_value_and_says_so() {
    let configured = root_text("elsewhere");
    let root = HostRoot {
        configured: Some(configured.clone()),
        effective: Some(configured.clone()),
        unavailable: None,
    };
    assert_eq!(root.source(), RootSource::Configured);
    assert_eq!(root.effective_text(), Some(configured.as_str()));
    assert_eq!(root.rendered(), configured.as_str());
}

#[test]
fn an_unresolvable_default_renders_its_reason_instead_of_a_path() {
    let root = HostRoot {
        configured: None,
        effective: None,
        unavailable: Some("the system directory is unreadable".to_string()),
    };
    assert_eq!(root.source(), RootSource::PlatformDefault);
    assert_eq!(root.effective_text(), None);
    assert!(
        root.rendered().contains("unavailable"),
        "{}",
        root.rendered()
    );
    assert!(
        root.rendered().contains("the system directory is unreadable"),
        "the reason has to travel with the row, or the operator learns nothing: {}",
        root.rendered()
    );
}

#[test]
fn the_host_root_is_the_configured_one_or_the_default() {
    let configured = host_root(Some("/a".to_string()), Err("x".to_string()));
    assert_eq!(configured.effective.as_deref(), Some("/a"));
    assert_eq!(configured.unavailable, None);
    let default = host_root(None, Ok("/d".to_string()));
    assert_eq!(default.effective.as_deref(), Some("/d"));
    let broken = host_root(None, Err("x".to_string()));
    assert_eq!(broken.effective, None);
    assert_eq!(broken.unavailable.as_deref(), Some("x"));
}

fn at(root: &str) -> HostRoot {
    HostRoot {
        configured: Some(root.to_string()),
        effective: Some(root.to_string()),
        unavailable: None,
    }
}

fn persistent(root: &str) -> WorkspacePolicy {
    WorkspacePolicy::Persistent {
        root: root.to_string(),
    }
}

#[test]
fn only_a_root_that_actually_moved_is_reported_as_retained() {
    let old = root_text("rman");
    let new = root_text("elsewhere");
    assert_eq!(retained_between(&at(&old), &at(&old)), None);
    assert_eq!(retained_between(&at(&old), &at(&new)), Some(old.clone()));

    let ephemeral = WorkspacePolicy::Ephemeral;
    let persistent = persistent(&old);
    assert_eq!(retained_root(&ephemeral, &persistent), None);
    assert_eq!(retained_root(&persistent, &persistent), None);
    assert_eq!(
        retained_root(&persistent, &ephemeral),
        Some(old),
        "returning to ephemeral leaves every slot on disk, and the operator is told so"
    );
}

#[test]
fn a_lost_race_names_the_directory_it_left_behind() {
    assert_eq!(leftover_note(&None), "");
    let note = leftover_note(&Some("/srv/ws".to_string()));
    assert!(note.contains("/srv/ws"), "{note}");
    assert!(note.contains("left in place"), "{note}");
    assert!(
        !note.contains("removed it") && !note.contains("deleted"),
        "the note must not claim a deletion this command is forbidden to perform: {note}"
    );
}

#[test]
fn the_trust_warning_states_every_required_clause() {
    let text = PERSISTENT_TRUST_WARNING.join("\n");
    for clause in [
        "_work",
        "branch and job boundaries",
        "untrusted fork or pull-request",
        "does not delete old directories",
        "clean: false",
    ] {
        assert!(text.contains(clause), "missing {clause:?} from:\n{text}");
    }
    let mut buffer = String::new();
    write_trust_warning(&mut buffer);
    assert_eq!(
        buffer,
        format!("{text}\n"),
        "the rendered warning must be the constant, so a screen and a command cannot \
         paraphrase it differently"
    );
}

#[test]
fn the_scope_token_is_the_one_the_status_document_already_emits() {
    assert_eq!(scope_token(TargetScope::Repository), "repository");
    assert_eq!(scope_token(TargetScope::Organization), "organization");
}

// ---------------------------------------------------------------------------
// Whole blocks
// ---------------------------------------------------------------------------

fn placeholders(text: String, paths: &[(&str, &str)]) -> String {
    let mut shown = text;
    for (actual, placeholder) in paths {
        shown = shown.replace(actual, placeholder);
    }
    shown
}

fn repository() -> ScaleTarget {
    ScaleTarget {
        scope: TargetScope::Repository,
        slug: "octo/repo".to_string(),
    }
}

#[test]
fn the_host_root_success_block_is_journey_2s() {
    let previous = root_text("rman");
    let current = root_text("runners");
    let change = RootChange {
        service_access: None,
        previous: HostRoot {
            configured: None,
            effective: Some(previous.clone()),
            unavailable: None,
        },
        current: at(&current),
        created: Some(current.clone()),
        retained: Some(previous.clone()),
    };
    let mut text = String::new();
    write_root_change(&mut text, &change);
    assert_eq!(
        placeholders(text, &[(&current, "<NEW>"), (&previous, "<OLD>")]),
        "Runner root configured.\n\
         Previous: <OLD> (platform-default)\n\
         Current:  <NEW> (configured)\n\
         Created:  <NEW>\n\
         New ephemeral attempts will use this path. No existing directory was moved or deleted.\n\
         Retained: <OLD> still holds whatever was left there.\n"
    );
}

#[test]
fn the_persistent_success_block_is_journey_3s_and_carries_the_whole_warning() {
    let old = root_text("old-cache");
    let new = root_text("ci-cache");
    let change = WorkspaceChange {
        target: repository(),
        previous: persistent(&old),
        current: persistent(&new),
        host_root: HostRoot {
            configured: None,
            effective: Some(root_text("rman")),
            unavailable: None,
        },
        created: Some(new.clone()),
        retained: Some(old.clone()),
    };
    let mut text = String::new();
    write_workspace_change(&mut text, &change);
    assert_eq!(
        placeholders(text, &[(&new, "<NEW>"), (&old, "<OLD>")]),
        [
            "Workspace mode: persistent",
            "Workspace root: <NEW>",
            "Created: <NEW>",
            "Slots: created on demand as s1, s2, ...",
            "Retained: each slot's _work directory",
            "Disposable: runner binaries, JIT handoff, and lifecycle files",
            "Left in place: every slot under <OLD> remains on disk, including its _work directory.",
            "No existing directory was moved or deleted.",
            "warning: a persistent workspace is a trusted-workflow optimization, not isolation.",
            "  - files under _work are an input to later jobs on the same slot;",
            "  - executable and generated content can cross branch and job boundaries;",
            "  - do not enable it for untrusted fork or pull-request workflows;",
            "  - changing or disabling persistence does not delete old directories;",
            "  - `actions/checkout` still cleans the workspace, including Git-ignored files,",
            "    unless the workflow sets `clean: false`.",
            "",
        ]
        .join("\n")
    );
}

#[test]
fn the_ephemeral_success_block_is_journey_4s() {
    let old = root_text("ci-cache");
    let host = root_text("rman");
    let change = WorkspaceChange {
        target: repository(),
        previous: persistent(&old),
        current: WorkspacePolicy::Ephemeral,
        host_root: HostRoot {
            configured: None,
            effective: Some(host.clone()),
            unavailable: None,
        },
        created: None,
        retained: Some(old.clone()),
    };
    let mut text = String::new();
    write_workspace_change(&mut text, &change);
    assert_eq!(
        placeholders(text, &[(&old, "<OLD>"), (&host, "<HOST>")]),
        "Workspace mode: ephemeral\n\
         Workspace root: <HOST>\n\
         Root source: <HOST> (platform-default)\n\
         Left in place: every slot under <OLD> remains on disk, including its _work directory.\n\
         No existing directory was moved or deleted.\n"
    );
}

// ---------------------------------------------------------------------------
// Changing a root while somebody else does
// ---------------------------------------------------------------------------

fn host_owner() -> RootOwner {
    RootOwner {
        repository: None,
        shown: "the host runner root".to_string(),
        remediation: "runner-manager host set-runtime-root --path PATH".to_string(),
    }
}

fn repository_owner() -> RootOwner {
    RootOwner {
        repository: Some("octo/repo".to_string()),
        shown: "the workspace of octo/repo".to_string(),
        remediation: "runner-manager repo set-workspace".to_string(),
    }
}

/// The rows of the store, as far as a change of a root meets them. Every
/// comparison below is the store's own, over what a step handed it.
#[derive(Debug)]
struct Rows {
    capacity: u16,
    root: Option<String>,
    policy: PolicyRow,
    max_capacity: u16,
    uncleaned: u16,
}

impl Rows {
    fn new() -> Rows {
        Rows {
            capacity: 1,
            root: None,
            policy: PolicyRow {
                target: repository(),
                workspace: WorkspacePolicy::Ephemeral,
                revision: 7,
            },
            max_capacity: 1,
            uncleaned: 0,
        }
    }

    fn host_root(&self) -> HostRoot {
        host_root(self.root.clone(), Ok("/default".to_string()))
    }

    /// Performs one write, behind the fence that it carries.
    fn write(&mut self, write: &StoreWrite) -> ChangeEvent {
        match write {
            StoreWrite::Root {
                expected,
                value,
                uncleaned,
            } if *expected == self.root && *uncleaned == self.uncleaned => {
                self.root = value.clone();
                ChangeEvent::Written
            }
            StoreWrite::Workspace {
                expected_revision,
                workspace,
                uncleaned,
            } if *expected_revision == self.policy.revision && *uncleaned == self.uncleaned => {
                self.policy.workspace = workspace.clone();
                self.policy.revision += 1;
                ChangeEvent::Written
            }
            _ => ChangeEvent::NotWritten(StoreRefusal {
                reason: "another process changed it first".to_string(),
                conflict: true,
            }),
        }
    }
}

/// What became of a change.
struct Run {
    outcome: Result<Option<String>, CliError>,
    /// The writes that were not of the host's one column.
    wider_writes: usize,
}

/// Drives a change to its end. Another writer gets at the rows right after the
/// count, and every directory is one on disk.
fn run(
    rows: &mut Rows,
    concurrent: impl FnOnce(&mut Rows),
    advance: impl Fn(ChangeStep, ChangeEvent) -> Result<ChangeStep, CliError>,
) -> Run {
    let mut step = ChangeStep::Count;
    let mut concurrent = Some(concurrent);
    let mut wider_writes = 0;
    let outcome = loop {
        let event = match &step {
            ChangeStep::Count => {
                if let Some(write) = concurrent.take() {
                    write(rows);
                }
                ChangeEvent::Counted(AffectedAttempts::default())
            }
            ChangeStep::Validate { root } => ChangeEvent::Usable(if Path::new(root).is_dir() {
                None
            } else {
                Some(root.clone())
            }),
            ChangeStep::Create { leaf } => match create(Path::new(leaf)) {
                true => ChangeEvent::Created,
                false => ChangeEvent::NotCreated("it is there already".to_string()),
            },
            ChangeStep::Apply { workspace, .. } => {
                ChangeEvent::Applied(format!("{workspace:?}") != format!("{:?}", rows.policy.workspace))
            }
            ChangeStep::Write { write, .. } => {
                if !matches!(write, StoreWrite::Root { .. }) {
                    wider_writes += 1;
                }
                rows.write(write)
            }
            ChangeStep::Report { created } => break Ok(created.clone()),
        };
        match advance(step, event) {
            Ok(next) => step = next,
            Err(refused) => break Err(refused),
        }
    };
    Run {
        outcome,
        wider_writes,
    }
}

/// Creates one directory under an existing one.
fn create(leaf: &Path) -> bool {
    let (Some(parent), Some(name)) = (leaf.parent(), leaf.file_name()) else {
        return false;
    };
    match tempfile::Builder::new()
        .prefix(name)
        .rand_bytes(0)
        .tempdir_in(parent)
    {
        Ok(made) => made.keep() == leaf,
        Err(_) => false,
    }
}

fn a_root(parent: &tempfile::TempDir, leaf: &str) -> String {
    parent
        .path()
        .join(leaf)
        .to_str()
        .expect("a temporary path must be UTF-8")
        .to_string()
}

/// Changes the host's runner root, from what the rows hold at the start.
fn change_the_host_root(
    rows: &mut Rows,
    requested: Option<String>,
    concurrent: impl FnOnce(&mut Rows),
) -> Run {
    let previous = rows.host_root();
    let owner = host_owner();
    run(rows, concurrent, |step, event| {
        set_host_runner_root(&previous, &requested, &owner, step, event)
    })
}

/// Changes the repository's workspace, from what the rows hold at the start.
fn change_the_workspace(
    rows: &mut Rows,
    kind: WorkspaceKind,
    path: Option<String>,
    concurrent: impl FnOnce(&mut Rows),
) -> Run {
    let read = rows.policy.clone();
    let owner = repository_owner();
    run(rows, concurrent, |step, event| {
        set_repository_workspace(&read, kind, &path, &None, &owner, step, event)
    })
}

#[test]
fn a_host_root_change_does_not_roll_back_a_concurrent_capacity_change() {
    let roots = tempfile::tempdir().expect("a temporary directory");
    let mut rows = Rows::new();
    let root = a_root(&roots, "runners");
    let previous = rows.host_root();
    let run = change_the_host_root(&mut rows, Some(root.clone()), |rows| rows.capacity = 9);
    let created = run
        .outcome
        .expect("the override did not move, so the fenced write is accepted");
    let change = root_changed(
        previous,
        rows.root.clone(),
        Ok("/default".to_string()),
        created,
        None,
    );
    assert_eq!(change.current.configured, Some(root.clone()));
    assert!(Path::new(&root).is_dir());
    assert_eq!(
        rows.capacity, 9,
        "the capacity that landed inside the window must survive: a whole-record write \
         would have restored the 1 this handler read"
    );
    assert_eq!(
        run.wider_writes, 0,
        "the one column is written and never the whole record, which is the only shape that \
         cannot roll a concurrent column back"
    );
}

#[test]
fn a_host_root_change_refuses_when_the_override_moved_under_it() {
    let roots = tempfile::tempdir().expect("a temporary directory");
    let mut rows = Rows::new();
    let theirs = a_root(&roots, "theirs");
    let stolen = theirs.clone();
    let mine = a_root(&roots, "mine");
    let run = change_the_host_root(&mut rows, Some(mine.clone()), move |rows| {
        assert!(matches!(
            rows.write(&StoreWrite::Root {
                expected: None,
                value: Some(stolen),
                uncleaned: 0,
            }),
            ChangeEvent::Written
        ));
    });
    let refused = run
        .outcome
        .expect_err("the stored override is no longer the one that was read");
    assert_eq!(refused.class(), Failure::Conflict);
    assert!(
        refused.message().contains("another process changed it first"),
        "the refusal must say a race was lost rather than look like an I/O failure: {}",
        refused.message()
    );
    assert!(
        refused.message().contains("left in place"),
        "and it must name the empty directory it created before the write was refused: {}",
        refused.message()
    );
    assert!(
        Path::new(&mine).is_dir(),
        "named, and left: a directory that is not known to be empty is not removed"
    );
    assert_eq!(
        rows.root,
        Some(theirs),
        "the concurrent value stands; the refused one was never written"
    );
}

#[test]
fn a_workspace_change_refuses_when_the_policy_moved_under_it() {
    let roots = tempfile::tempdir().expect("a temporary directory");
    let mut rows = Rows::new();
    let root = a_root(&roots, "ci-cache");
    let run = change_the_workspace(
        &mut rows,
        WorkspaceKind::Persistent,
        Some(root.clone()),
        |rows| {
            rows.max_capacity = 4;
            rows.policy.revision += 1;
        },
    );
    let refused = run
        .outcome
        .expect_err("the revision this write was built from no longer exists");
    assert_eq!(refused.class(), Failure::Conflict);
    assert!(
        refused.message().contains("left in place"),
        "the created leaf is reported: {}",
        refused.message()
    );
    assert!(Path::new(&root).is_dir());
    assert!(
        matches!(rows.policy.workspace, WorkspacePolicy::Ephemeral),
        "nothing was written, so the repository is still disposable"
    );
    assert_eq!(
        rows.max_capacity, 4,
        "and the concurrent ceiling change was not rolled back either"
    );
}

#[test]
fn an_attempt_that_started_under_a_change_refuses_it() {
    let roots = tempfile::tempdir().expect("a temporary directory");
    let mut rows = Rows::new();
    let run = change_the_host_root(&mut rows, Some(a_root(&roots, "mine")), |rows| {
        rows.uncleaned = 1;
    });
    assert_eq!(
        run.outcome.expect_err("no longer idle").class(),
        Failure::Conflict
    );
    assert_eq!(rows.root, None);
    let mut rows = Rows::new();
    let run = change_the_workspace(
        &mut rows,
        WorkspaceKind::Persistent,
        Some(a_root(&roots, "theirs")),
        |rows| rows.uncleaned = 1,
    );
    assert_eq!(
        run.outcome.expect_err("no longer idle").class(),
        Failure::Conflict
    );
    assert!(matches!(rows.policy.workspace, WorkspacePolicy::Ephemeral));
}

#[test]
fn a_change_that_nobody_races_is_written() {
    let roots = tempfile::tempdir().expect("a temporary directory");
    let mut rows = Rows::new();
    let root = a_root(&roots, "ci-cache");
    let run = change_the_workspace(
        &mut rows,
        WorkspaceKind::Persistent,
        Some(root.clone()),
        |_| {},
    );
    assert_eq!(run.outcome.expect("written"), Some(root.clone()));
    assert_eq!(rows.policy.workspace.root(), Some(&root));
    assert_eq!(rows.policy.revision, 8);
    // The same again differs in nothing, so nothing is written.
    let run = change_the_workspace(&mut rows, WorkspaceKind::Persistent, Some(root), |_| {});
    assert_eq!(run.outcome.expect("no change"), None);
    assert_eq!(run.wider_writes, 0);
    assert_eq!(rows.policy.revision, 8);
    let run = change_the_workspace(&mut rows, WorkspaceKind::Ephemeral, None, |_| {});
    assert_eq!(run.outcome.expect("written"), None);
    assert!(matches!(rows.policy.workspace, WorkspacePolicy::Ephemeral));
    // And the host's own root can be taken away again.
    rows.root = Some("/srv/runners".to_string());
    let run = change_the_host_root(&mut rows, None, |_| {});
    assert_eq!(run.outcome.expect("written"), None);
    assert_eq!(rows.root, None);
}

#[test]
fn the_shared_handler_refuses_a_path_for_an_ephemeral_workspace() {
    let roots = tempfile::tempdir().expect("a temporary directory");
    let mut rows = Rows::new();
    let root = a_root(&roots, "ci-cache");
    let run = change_the_workspace(
        &mut rows,
        WorkspaceKind::Ephemeral,
        Some(root.clone()),
        |_| {},
    );
    let refused = run
        .outcome
        .expect_err("an ephemeral workspace has no slots to place");
    assert_eq!(refused.class(), Failure::InvalidArgument);
    assert!(
        refused.message().contains("nothing was changed"),
        "the refusal must say the setting is untouched: {}",
        refused.message()
    );
    assert!(
        !Path::new(&root).exists(),
        "and a refused mutation creates no directory"
    );
    assert!(matches!(rows.policy.workspace, WorkspacePolicy::Ephemeral));
    assert_eq!(rows.policy.revision, 7);
    assert_eq!(
        request_policy(&repository(), WorkspaceKind::Ephemeral, Some(root), None)
            .expect_err("refused")
            .class(),
        Failure::InvalidArgument
    );
}

#[test]
fn a_root_with_work_under_it_is_not_moved() {
    let busy = AffectedAttempts {
        active: 1,
        cleanup_blocked: 1,
    };
    let refused = set_host_runner_root(
        &at("/srv/host"),
        &Some("/srv/x".to_string()),
        &host_owner(),
        ChangeStep::Count,
        ChangeEvent::Counted(busy),
    )
    .expect_err("work is under way");
    assert!(refused.message().contains("1 active"), "{}", refused.message());
    assert!(
        set_host_runner_root(
            &at("/srv/host"),
            &Some("/srv/x".to_string()),
            &host_owner(),
            ChangeStep::Count,
            ChangeEvent::Unreadable("locked".to_string()),
        )
        .is_err()
    );
}

#[test]
fn an_unusable_root_is_refused_with_its_owners_remedy() {
    let owner = host_owner();
    let refused = parse_root("x", &owner, Err("not absolute".to_string())).expect_err("relative");
    assert_eq!(refused.class(), Failure::InvalidArgument);
    assert_eq!(refused.remedy(), Some(owner.remediation.as_str()));
    let refused = check_root("/x", &owner, Ok("/x".to_string()), Err("in use".to_string()))
        .expect_err("in use");
    assert!(refused.message().contains("in use"));
    assert_eq!(
        check_root("/x", &owner, Ok("/x".to_string()), Ok(())).expect("usable"),
        "/x"
    );
}

#[test]
fn every_configured_root_is_checked_against() {
    let rows = vec![
        PolicyRow {
            target: repository(),
            workspace: persistent("/srv/a"),
            revision: 1,
        },
        PolicyRow {
            target: ScaleTarget {
                scope: TargetScope::Organization,
                slug: "octo".to_string(),
            },
            workspace: WorkspacePolicy::Ephemeral,
            revision: 1,
        },
    ];
    let roots = preflight_against_everything(&at("/srv/host"), &rows);
    assert_eq!(roots.len(), 2);
    assert_eq!(roots[0].root, "/srv/host");
    assert_eq!(roots[1].root, "/srv/a");
    assert_eq!(find_policy(&rows, &repository()).expect("there"), 0);
    let unknown = ScaleTarget {
        scope: TargetScope::Repository,
        slug: "octo/other".to_string(),
    };
    assert_eq!(
        find_policy(&rows, &unknown).expect_err("not there").class(),
        Failure::NotFound
    );
}

#[test]
fn a_repository_without_a_workspace_of_its_own_uses_the_hosts() {
    let mut holding = an_attempt(false);
    holding.slot = Some(1);
    let workspace = repository_workspace(
        repository(),
        persistent("/srv/a"),
        &at("/srv/host"),
        Ok(vec![an_attempt(false)]),
        Ok(vec![holding]),
    )
    .expect("readable");
    assert_eq!(workspace.kind(), WorkspaceKind::Persistent);
    assert_eq!(workspace.effective_root(), Some("/srv/a"));
    assert_eq!(workspace.leases.len(), 1);
    let disposable = repository_workspace(
        repository(),
        WorkspacePolicy::Ephemeral,
        &at("/srv/host"),
        Ok(Vec::new()),
        Ok(Vec::new()),
    )
    .expect("readable");
    assert_eq!(disposable.effective_root(), Some("/srv/host"));
    assert_eq!(disposable.root_source_badge(), "configured");
    let changed = workspace_changed(
        &repository(),
        persistent("/srv/a"),
        WorkspacePolicy::Ephemeral,
        at("/srv/host"),
        None,
    );
    assert_eq!(changed.retained.as_deref(), Some("/srv/a"));
    assert_eq!(changed.effective_root(), "/srv/host");
}
