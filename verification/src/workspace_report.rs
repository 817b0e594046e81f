//! What is said about a change of a root or of a workspace.

use vstd::prelude::*;

use crate::workspace;
use crate::workspace::{write_trust_warning, WorkspaceKind};
use crate::workspace_change::{RootChange, ServiceAccessWarning, WorkspaceChange};

verus! {

// ---------------------------------------------------------------------------
// The host's runner root
// ---------------------------------------------------------------------------

/// The line that names what was created, if anything was.
pub open spec fn created_line(label: Seq<char>, created: Option<String>) -> Seq<char> {
    match created {
        Some(path) => label + path@ + "\n"@,
        None => Seq::empty(),
    }
}

/// Names what was created, if anything was.
fn render_created(label: &str, created: &Option<String>) -> (line: String)
    ensures
        line@ == created_line(label@, *created),
{
    match created {
        Some(path) => {
            let mut line = label.to_owned();
            line.append(path.as_str());
            line.append("\n");
            line
        },
        None => String::new(),
    }
}

/// What an accepted change of the host's root is reported as.
pub open spec fn root_change_text(change: RootChange) -> Seq<char> {
    "Runner root "@ + (if change.current.configured is Some {
        "configured"@
    } else {
        "reset to the platform default"@
    }) + ".\nPrevious: "@ + change.previous.shown() + " ("@ + change.previous.root_source().badge()
        + ")\nCurrent:  "@ + change.current.shown() + " ("@ + change.current.root_source().badge()
        + ")\n"@ + created_line("Created:  "@, change.created)
        + "New ephemeral attempts will use this path. No existing directory was moved or deleted.\n"@
        + (match change.retained {
        Some(left) => "Retained: "@ + left@ + " still holds whatever was left there.\n"@,
        None => Seq::empty(),
    })
}

/// Reports an accepted change of the host's root.
pub fn write_root_change(out: &mut String, change: &RootChange)
    ensures
        final(out)@ == old(out)@ + root_change_text(*change),
{
    let mut said = "Runner root ".to_owned();
    said.append(
        if change.current.configured.is_some() {
            "configured"
        } else {
            "reset to the platform default"
        },
    );
    said.append(".\nPrevious: ");
    said.append(change.previous.rendered().as_str());
    said.append(" (");
    said.append(change.previous.source().as_str());
    said.append(")\nCurrent:  ");
    said.append(change.current.rendered().as_str());
    said.append(" (");
    said.append(change.current.source().as_str());
    said.append(")\n");
    said.append(render_created("Created:  ", &change.created).as_str());
    said.append(
        "New ephemeral attempts will use this path. No existing directory was moved or deleted.\n",
    );
    let mut left = String::new();
    if let Some(path) = &change.retained {
        left = "Retained: ".to_owned();
        left.append(path.as_str());
        left.append(" still holds whatever was left there.\n");
    }
    said.append(left.as_str());
    out.append(said.as_str());
}

// ---------------------------------------------------------------------------
// A root the service cannot reach
// ---------------------------------------------------------------------------

/// How a passage is set off: what is put before it and after it.
#[derive(Debug, Clone)]
pub struct Emphasis {
    pub before: String,
    pub after: String,
}

/// How a report is styled on the terminal it is written to.
#[derive(Debug, Clone)]
pub struct Styling {
    pub caution: Emphasis,
    pub step: Emphasis,
    pub code: Emphasis,
}

/// A passage, set off.
pub open spec fn set_off(emphasis: Emphasis, passage: Seq<char>) -> Seq<char> {
    emphasis.before@ + passage + emphasis.after@
}

impl Emphasis {
    /// Nothing before and nothing after.
    pub fn plain() -> (emphasis: Emphasis)
        ensures
            emphasis.before@ == Seq::<char>::empty(),
            emphasis.after@ == Seq::<char>::empty(),
    {
        Emphasis { before: String::new(), after: String::new() }
    }

    /// Sets a passage off.
    pub fn apply(&self, passage: &str) -> (shown: String)
        ensures
            shown@ == set_off(*self, passage@),
    {
        let mut shown = self.before.clone();
        shown.append(passage);
        shown.append(self.after.as_str());
        shown
    }
}

impl Styling {
    /// No styling at all.
    pub fn plain() -> (styling: Styling)
        ensures
            forall|passage: Seq<char>| #[trigger] set_off(styling.caution, passage) == passage,
            forall|passage: Seq<char>| #[trigger] set_off(styling.step, passage) == passage,
            forall|passage: Seq<char>| #[trigger] set_off(styling.code, passage) == passage,
    {
        let styling = Styling {
            caution: Emphasis::plain(),
            step: Emphasis::plain(),
            code: Emphasis::plain(),
        };
        assert forall|passage: Seq<char>| #[trigger]
            set_off(styling.caution, passage) == passage by {
            assert(set_off(styling.caution, passage) =~= passage);
        }
        assert forall|passage: Seq<char>| #[trigger] set_off(styling.step, passage) == passage by {
            assert(set_off(styling.step, passage) =~= passage);
        }
        assert forall|passage: Seq<char>| #[trigger] set_off(styling.code, passage) == passage by {
            assert(set_off(styling.code, passage) =~= passage);
        }
        styling
    }
}

/// What is said about a root that the service cannot use yet.
pub open spec fn access_warning_text(
    styling: Styling,
    warning: ServiceAccessWarning,
    settings_opened: bool,
) -> Seq<char> {
    "\n"@ + set_off(styling.caution, "The service cannot use this path yet."@)
        + "\nThis root is on a separate volume, and this host starts the agent at boot as\n`root`. macOS withholds such volumes from a background service until the\nprogram is granted Full Disk Access, and a service cannot ask for it: the\nrefusal is silent, and every launch fails with nothing on screen to say why.\n\n"@
        + set_off(styling.step, "To fix it now:"@) + (if settings_opened {
        "\n  1. In the window that just opened -- System Settings > Privacy &\n     Security > Full Disk Access -- select `+` and add this exact program:\n     "@
    } else {
        "\n  1. Open System Settings > Privacy & Security > Full Disk Access, then\n     select `+` and add this exact program:\n     "@
    }) + (match warning.program {
        Some(program) => set_off(styling.code, program@)
            + "\n     It is the copy the service runs, not the one on your PATH.\n"@,
        None => "the binary this host's service is registered to run, which\n     "@ + set_off(
            styling.code,
            "sudo runner-manager service status"@,
        ) + " prints as `binary`. It is not the one on your PATH.\n"@,
    }) + "  2. Restart the service so it picks the grant up:\n     "@ + set_off(
        styling.code,
        "sudo runner-manager service uninstall && sudo runner-manager service install"@,
    )
        + "\n\nOr avoid the grant entirely by running the agent as you, in your own session:\n  "@
        + set_off(styling.code, "runner-manager service install --start-at login"@) + "\n"@
}

/// Writes the block about a root that the service cannot use yet. It never
/// claims that a window opened unless one did, and it never guesses a program.
pub fn write_service_access_warning(
    out: &mut String,
    styling: &Styling,
    warning: &ServiceAccessWarning,
    settings_opened: bool,
)
    ensures
        final(out)@ == old(out)@ + access_warning_text(*styling, *warning, settings_opened),
{
    let mut said = "\n".to_owned();
    said.append(styling.caution.apply("The service cannot use this path yet.").as_str());
    said.append(
        "\nThis root is on a separate volume, and this host starts the agent at boot as\n`root`. macOS withholds such volumes from a background service until the\nprogram is granted Full Disk Access, and a service cannot ask for it: the\nrefusal is silent, and every launch fails with nothing on screen to say why.\n\n",
    );
    said.append(styling.step.apply("To fix it now:").as_str());
    said.append(
        if settings_opened {
            "\n  1. In the window that just opened -- System Settings > Privacy &\n     Security > Full Disk Access -- select `+` and add this exact program:\n     "
        } else {
            "\n  1. Open System Settings > Privacy & Security > Full Disk Access, then\n     select `+` and add this exact program:\n     "
        },
    );
    let named = match &warning.program {
        Some(program) => {
            let mut named = styling.code.apply(program.as_str());
            named.append("\n     It is the copy the service runs, not the one on your PATH.\n");
            named
        },
        None => {
            let mut named =
                "the binary this host's service is registered to run, which\n     ".to_owned();
            named.append(styling.code.apply("sudo runner-manager service status").as_str());
            named.append(" prints as `binary`. It is not the one on your PATH.\n");
            named
        },
    };
    said.append(named.as_str());
    said.append("  2. Restart the service so it picks the grant up:\n     ");
    said.append(
        styling.code.apply(
            "sudo runner-manager service uninstall && sudo runner-manager service install",
        ).as_str(),
    );
    said.append(
        "\n\nOr avoid the grant entirely by running the agent as you, in your own session:\n  ",
    );
    said.append(styling.code.apply("runner-manager service install --start-at login").as_str());
    said.append("\n");
    out.append(said.as_str());
}

// ---------------------------------------------------------------------------
// A repository's workspace
// ---------------------------------------------------------------------------

/// What an accepted change of a repository's workspace is reported as.
pub open spec fn workspace_change_text(change: WorkspaceChange) -> Seq<char> {
    "Workspace mode: "@ + workspace::kind_word(change.current.kind_of()) + "\nWorkspace root: "@
        + change.shown_root() + "\n"@ + (if change.current is Persistent {
        created_line("Created: "@, change.created)
            + "Slots: created on demand as s1, s2, ...\nRetained: each slot's _work directory\nDisposable: runner binaries, JIT handoff, and lifecycle files\n"@
    } else {
        "Root source: "@ + change.host_root.shown() + " ("@
            + change.host_root.root_source().badge() + ")\n"@
    }) + (match change.retained {
        Some(left) => "Left in place: every slot under "@ + left@
            + " remains on disk, including its _work directory.\n"@,
        None => Seq::empty(),
    }) + "No existing directory was moved or deleted.\n"@ + (if change.current is Persistent {
        workspace::trust_warning_text()
    } else {
        Seq::empty()
    })
}

/// Reports an accepted change of a repository's workspace. A persistent one
/// always comes with the whole trust warning, and an ephemeral one never does.
pub fn write_workspace_change(out: &mut String, change: &WorkspaceChange)
    ensures
        final(out)@ == old(out)@ + workspace_change_text(*change),
{
    let persistent = change.current.is_persistent();
    let mut said = "Workspace mode: ".to_owned();
    said.append(
        match change.current.kind() {
            WorkspaceKind::Ephemeral => "ephemeral",
            WorkspaceKind::Persistent => "persistent",
        },
    );
    said.append("\nWorkspace root: ");
    said.append(change.effective_root().as_str());
    said.append("\n");
    let kept = if persistent {
        let mut kept = render_created("Created: ", &change.created);
        kept.append(
            "Slots: created on demand as s1, s2, ...\nRetained: each slot's _work directory\nDisposable: runner binaries, JIT handoff, and lifecycle files\n",
        );
        kept
    } else {
        let mut kept = "Root source: ".to_owned();
        kept.append(change.host_root.rendered().as_str());
        kept.append(" (");
        kept.append(change.host_root.source().as_str());
        kept.append(")\n");
        kept
    };
    said.append(kept.as_str());
    let mut left = String::new();
    if let Some(path) = &change.retained {
        left = "Left in place: every slot under ".to_owned();
        left.append(path.as_str());
        left.append(" remains on disk, including its _work directory.\n");
    }
    said.append(left.as_str());
    said.append("No existing directory was moved or deleted.\n");
    let mut warning = String::new();
    if persistent {
        write_trust_warning(&mut warning);
        assert(warning@ == workspace::trust_warning_text());
    }
    said.append(warning.as_str());
    out.append(said.as_str());
}

/// A change of the root is told by the root before it and the root after it, each
/// with where it comes from, and by whether it was configured or reset.
pub proof fn law_a_root_change_tells_before_and_after(change: RootChange)
    ensures
        ({
            let done = match change.current.configured {
                Some(_) => "configured"@,
                None => "reset to the platform default"@,
            };
            let head = "Runner root "@ + done + ".\nPrevious: "@ + change.previous.shown() + " ("@
                + change.previous.root_source().badge() + ")\nCurrent:  "@ + change.current.shown()
                + " ("@ + change.current.root_source().badge() + ")\n"@;
            &&& head.len() <= root_change_text(change).len()
            &&& root_change_text(change).take(head.len() as int) == head
        }),
{
    let done = match change.current.configured {
        Some(_) => "configured"@,
        None => "reset to the platform default"@,
    };
    let head = "Runner root "@ + done + ".\nPrevious: "@ + change.previous.shown() + " ("@
        + change.previous.root_source().badge() + ")\nCurrent:  "@ + change.current.shown()
        + " ("@ + change.current.root_source().badge() + ")\n"@;
    assert(root_change_text(change).take(head.len() as int) =~= head);
}

/// A change of the root names the directory that was made for it and the one that
/// was left behind, and neither where there is none. It always says that nothing
/// was moved.
pub proof fn law_a_root_change_names_what_it_made_and_left(change: RootChange)
    ensures
        ({
            let text = root_change_text(change);
            let kept = "New ephemeral attempts will use this path. No existing directory was moved or deleted.\n"@;
            &&& change.retained is None ==> text.len() >= kept.len() && text.skip(
                text.len() - kept.len(),
            ) == kept
            &&& change.retained matches Some(left) ==> exists|before: Seq<char>|
                text == #[trigger] (before + (kept + "Retained: "@ + left@
                    + " still holds whatever was left there.\n"@))
            &&& change.created matches Some(made) ==> exists|before: Seq<char>, after: Seq<char>|
                text == #[trigger] (before + ("\nCreated:  "@ + made@ + "\n"@) + after)
            &&& change.created is None ==> exists|before: Seq<char>, after: Seq<char>|
                text == #[trigger] (before + (change.current.root_source().badge() + ")\n"@ + kept)
                    + after)
        }),
{
    let text = root_change_text(change);
    let kept = "New ephemeral attempts will use this path. No existing directory was moved or deleted.\n"@;
    let head = "Runner root "@ + (if change.current.configured is Some {
        "configured"@
    } else {
        "reset to the platform default"@
    }) + ".\nPrevious: "@ + change.previous.shown() + " ("@
        + change.previous.root_source().badge() + ")\nCurrent:  "@ + change.current.shown()
        + " ("@;
    let badge = change.current.root_source().badge();
    let made = created_line("Created:  "@, change.created);
    let left = match change.retained {
        Some(left) => "Retained: "@ + left@ + " still holds whatever was left there.\n"@,
        None => Seq::empty(),
    };
    assert(text =~= head + badge + ")\n"@ + made + kept + left);
    if change.retained is None {
        assert(text.skip(text.len() - kept.len()) =~= kept);
    }
    if let Some(path) = change.retained {
        let before = head + badge + ")\n"@ + made;
        assert(text =~= before + (kept + "Retained: "@ + path@
            + " still holds whatever was left there.\n"@));
    }
    if let Some(path) = change.created {
        reveal_strlit(")\n");
        reveal_strlit("\nCreated:  ");
        reveal_strlit("Created:  ");
        reveal_strlit("\n");
        let before = head + badge + seq![')'];
        assert("\nCreated:  "@ =~= seq!['\n'] + "Created:  "@);
        assert(")\n"@ =~= seq![')'] + seq!['\n']);
        assert(text =~= before + ("\nCreated:  "@ + path@ + "\n"@) + (kept + left));
    }
    if change.created is None {
        assert(text =~= head + (badge + ")\n"@ + kept) + left);
    }
}

/// A persistent workspace comes with the whole trust warning, behind everything
/// else, and an ephemeral one ends without it.
pub proof fn law_only_a_persistent_workspace_warns(change: WorkspaceChange)
    ensures
        ({
            let text = workspace_change_text(change);
            let kept = "No existing directory was moved or deleted.\n"@;
            &&& change.current is Persistent ==> exists|before: Seq<char>|
                text == #[trigger] (before + (kept + workspace::trust_warning_text()))
            &&& change.current is Ephemeral ==> exists|before: Seq<char>|
                text == #[trigger] (before + kept)
        }),
{
    let text = workspace_change_text(change);
    let kept = "No existing directory was moved or deleted.\n"@;
    let before = text.take(
        text.len() - kept.len() - (if change.current is Persistent {
            workspace::trust_warning_text().len() as int
        } else {
            0
        }),
    );
    if change.current is Persistent {
        assert(text =~= before + (kept + workspace::trust_warning_text()));
    } else {
        assert(text =~= before + kept);
    }
}

/// A change of a workspace begins with its mode and the root that it uses. A
/// persistent one names the directory that was made for it; an ephemeral one says
/// where the host's root comes from.
pub proof fn law_a_workspace_change_tells_mode_and_root(change: WorkspaceChange)
    ensures
        ({
            let text = workspace_change_text(change);
            &&& change.current is Persistent ==> ({
                let head = "Workspace mode: "@ + workspace::kind_word(WorkspaceKind::Persistent)
                    + "\nWorkspace root: "@ + change.shown_root() + "\n"@;
                &&& change.created matches Some(made) ==> exists|after: Seq<char>|
                    text == #[trigger] (head + ("Created: "@ + made@ + "\nSlots: created on demand"@)
                        + after)
                &&& change.created is None ==> exists|after: Seq<char>|
                    text == #[trigger] (head + "Slots: created on demand"@ + after)
            })
            &&& change.current is Ephemeral ==> ({
                let head = "Workspace mode: "@ + workspace::kind_word(WorkspaceKind::Ephemeral)
                    + "\nWorkspace root: "@ + change.shown_root() + "\nRoot source: "@
                    + change.host_root.shown() + " ("@ + change.host_root.root_source().badge()
                    + ")\n"@;
                exists|after: Seq<char>| text == #[trigger] (head + after)
            })
        }),
{
    let text = workspace_change_text(change);
    let slots = "Slots: created on demand as s1, s2, ...\nRetained: each slot's _work directory\nDisposable: runner binaries, JIT handoff, and lifecycle files\n"@;
    let left = match change.retained {
        Some(left) => "Left in place: every slot under "@ + left@
            + " remains on disk, including its _work directory.\n"@,
        None => Seq::empty(),
    };
    let kept = "No existing directory was moved or deleted.\n"@;
    if change.current is Persistent {
        let head = "Workspace mode: "@ + workspace::kind_word(WorkspaceKind::Persistent)
            + "\nWorkspace root: "@ + change.shown_root() + "\n"@;
        let end = left + kept + workspace::trust_warning_text();
        reveal_strlit("Slots: created on demand");
        reveal_strlit("\nSlots: created on demand");
        reveal_strlit("\n");
        reveal_strlit(
            "Slots: created on demand as s1, s2, ...\nRetained: each slot's _work directory\nDisposable: runner binaries, JIT handoff, and lifecycle files\n",
        );
        let begin = "Slots: created on demand"@;
        let rest = slots.skip(begin.len() as int);
        assert(slots =~= begin + rest);
        assert("\nSlots: created on demand"@ =~= "\n"@ + begin);
        assert(text =~= head + created_line("Created: "@, change.created) + slots + end);
        if let Some(made) = change.created {
            assert(text =~= head + ("Created: "@ + made@ + "\nSlots: created on demand"@) + (rest
                + end));
        } else {
            assert(text =~= head + begin + (rest + end));
        }
    } else {
        let head = "Workspace mode: "@ + workspace::kind_word(WorkspaceKind::Ephemeral)
            + "\nWorkspace root: "@ + change.shown_root() + "\nRoot source: "@
            + change.host_root.shown() + " ("@ + change.host_root.root_source().badge() + ")\n"@;
        reveal_strlit("\nRoot source: ");
        reveal_strlit("\n");
        reveal_strlit("Root source: ");
        assert("\nRoot source: "@ =~= "\n"@ + "Root source: "@);
        assert(text =~= head + (left + kept));
    }
}

/// What a workspace leaves behind is named, and nothing is where it leaves
/// nothing.
pub proof fn law_a_workspace_change_names_what_it_left(change: WorkspaceChange)
    ensures
        ({
            let bare = WorkspaceChange { retained: None, ..change };
            let text = workspace_change_text(change);
            let kept = "No existing directory was moved or deleted.\n"@;
            &&& change.retained matches Some(left) ==> exists|before: Seq<char>, after: Seq<char>|
                {
                    &&& text == #[trigger] (before + ("Left in place: every slot under "@ + left@
                        + " remains on disk, including its _work directory.\n"@ + kept) + after)
                    &&& workspace_change_text(bare) == before + kept + after
                }
            &&& change.retained is None ==> text.len() == workspace_change_text(bare).len()
        }),
{
    let bare = WorkspaceChange { retained: None, ..change };
    let text = workspace_change_text(change);
    let plain = workspace_change_text(bare);
    let kept = "No existing directory was moved or deleted.\n"@;
    let after = if change.current is Persistent {
        workspace::trust_warning_text()
    } else {
        Seq::empty()
    };
    let before = plain.take(plain.len() - kept.len() - after.len());
    assert(plain =~= before + kept + after);
    if let Some(left) = change.retained {
        assert(text =~= before + ("Left in place: every slot under "@ + left@
            + " remains on disk, including its _work directory.\n"@ + kept) + after);
    }
}

/// What a warning is made of: what is wrong, the first step up to the program, how
/// the program is named, and the rest.
proof fn lemma_warning_parts(
    styling: Styling,
    warning: ServiceAccessWarning,
    settings_opened: bool,
) -> (parts: (Seq<char>, Seq<char>))
    ensures
        access_warning_text(styling, warning, settings_opened) == parts.0 + (if settings_opened {
            "\n  1. In the window that just opened -- System Settings > Privacy &\n     Security > Full Disk Access -- select `+` and add this exact program:\n     "@
        } else {
            "\n  1. Open System Settings > Privacy & Security > Full Disk Access, then\n     select `+` and add this exact program:\n     "@
        }) + (match warning.program {
            Some(program) => styling.code.before@ + program@ + styling.code.after@
                + "\n     It is the copy the service runs, not the one on your PATH.\n"@,
            None => "the binary this host's service is registered to run, which\n     "@ + (
            styling.code.before@ + "sudo runner-manager service status"@ + styling.code.after@)
                + " prints as `binary`. It is not the one on your PATH.\n"@,
        }) + parts.1,
{
    let first = "\n"@ + set_off(styling.caution, "The service cannot use this path yet."@)
        + "\nThis root is on a separate volume, and this host starts the agent at boot as\n`root`. macOS withholds such volumes from a background service until the\nprogram is granted Full Disk Access, and a service cannot ask for it: the\nrefusal is silent, and every launch fails with nothing on screen to say why.\n\n"@
        + set_off(styling.step, "To fix it now:"@);
    let last = "  2. Restart the service so it picks the grant up:\n     "@ + set_off(
        styling.code,
        "sudo runner-manager service uninstall && sudo runner-manager service install"@,
    )
        + "\n\nOr avoid the grant entirely by running the agent as you, in your own session:\n  "@
        + set_off(styling.code, "runner-manager service install --start-at login"@) + "\n"@;
    (first, last)
}

/// A warning names the program that the service runs where it is known, and the
/// command that prints it otherwise.
pub proof fn law_a_warning_names_the_program_and_no_other(
    styling: Styling,
    warning: ServiceAccessWarning,
    settings_opened: bool,
)
    ensures
        ({
            let text = access_warning_text(styling, warning, settings_opened);
            let code = styling.code;
            &&& warning.program matches Some(program) ==> exists|before: Seq<char>, after: Seq<char>|
                text == #[trigger] (before + (code.before@ + program@ + code.after@
                    + "\n     It is the copy the service runs, not the one on your PATH.\n"@)
                    + after)
            &&& warning.program is None ==> exists|before: Seq<char>, after: Seq<char>|
                text == #[trigger] (before + (code.before@ + "sudo runner-manager service status"@
                    + code.after@ + " prints as `binary`. It is not the one on your PATH.\n"@)
                    + after)
        }),
{
    let (first, last) = lemma_warning_parts(styling, warning, settings_opened);
    let text = access_warning_text(styling, warning, settings_opened);
    let step = if settings_opened {
        "\n  1. In the window that just opened -- System Settings > Privacy &\n     Security > Full Disk Access -- select `+` and add this exact program:\n     "@
    } else {
        "\n  1. Open System Settings > Privacy & Security > Full Disk Access, then\n     select `+` and add this exact program:\n     "@
    };
    let code = styling.code;
    if warning.program is None {
        let before = first + step
            + "the binary this host's service is registered to run, which\n     "@;
        assert(text =~= before + (code.before@ + "sudo runner-manager service status"@ + code.after@
            + " prints as `binary`. It is not the one on your PATH.\n"@) + last);
    }
}

/// A warning speaks of a window that opened exactly where one did.
pub proof fn law_a_warning_speaks_of_the_window_that_opened(
    styling: Styling,
    warning: ServiceAccessWarning,
    settings_opened: bool,
)
    ensures
        ({
            let text = access_warning_text(styling, warning, settings_opened);
            &&& settings_opened ==> exists|before: Seq<char>, after: Seq<char>|
                text == #[trigger] (before + "\n  1. In the window that just opened"@ + after)
            &&& !settings_opened ==> exists|before: Seq<char>, after: Seq<char>|
                text == #[trigger] (before + "\n  1. Open System Settings"@ + after)
        }),
{
    let (first, last) = lemma_warning_parts(styling, warning, settings_opened);
    let text = access_warning_text(styling, warning, settings_opened);
    let named = match warning.program {
        Some(program) => styling.code.before@ + program@ + styling.code.after@
            + "\n     It is the copy the service runs, not the one on your PATH.\n"@,
        None => "the binary this host's service is registered to run, which\n     "@ + (
        styling.code.before@ + "sudo runner-manager service status"@ + styling.code.after@)
            + " prints as `binary`. It is not the one on your PATH.\n"@,
    };
    if settings_opened {
        let step = "\n  1. In the window that just opened -- System Settings > Privacy &\n     Security > Full Disk Access -- select `+` and add this exact program:\n     "@;
        let begin = "\n  1. In the window that just opened"@;
        assert(step =~= begin + step.skip(begin.len() as int)) by {
            reveal_strlit("\n  1. In the window that just opened");
            reveal_strlit(
                "\n  1. In the window that just opened -- System Settings > Privacy &\n     Security > Full Disk Access -- select `+` and add this exact program:\n     ",
            );
        }
        lemma_begun(first, begin, step.skip(begin.len() as int), named, last);
    } else {
        let step = "\n  1. Open System Settings > Privacy & Security > Full Disk Access, then\n     select `+` and add this exact program:\n     "@;
        let begin = "\n  1. Open System Settings"@;
        assert(step =~= begin + step.skip(begin.len() as int)) by {
            reveal_strlit("\n  1. Open System Settings");
            reveal_strlit(
                "\n  1. Open System Settings > Privacy & Security > Full Disk Access, then\n     select `+` and add this exact program:\n     ",
            );
        }
        lemma_begun(first, begin, step.skip(begin.len() as int), named, last);
    }
}

/// Texts one after another, read as three.
proof fn lemma_begun(
    first: Seq<char>,
    begin: Seq<char>,
    rest: Seq<char>,
    named: Seq<char>,
    last: Seq<char>,
)
    ensures
        first + (begin + rest) + named + last == first + begin + (rest + named + last),
{
    assert(first + (begin + rest) + named + last =~= first + begin + (rest + named + last));
}

} // verus!
