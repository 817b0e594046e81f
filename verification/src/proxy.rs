//! Addressing another host: the selector, and the command line that carries a
//! command into a distribution.

use vstd::prelude::*;

use crate::failure;
use crate::failure::{CliError, ErrorView, Failure};
use crate::text;
use crate::text::{same_text, starts_with, strip_prefix};
use crate::wsl_error;
use crate::wsl_error::{wsl_failure, WslError};

verus! {

/// The option that selects a host.
pub const HOST_OPTION: &'static str = "--host";

/// The other spelling of the same option.
pub const HOST_OPTION_EQUALS: &'static str = "--host=";

/// Where the binary goes inside a distribution.
pub const DEFAULT_LINUX_DESTINATION: &'static str = "/usr/local/bin/runner-manager";

/// The account that commands run as inside a distribution.
pub const LINUX_USER: &'static str = "root";

// ---------------------------------------------------------------------------
// The selector
// ---------------------------------------------------------------------------

/// The host that a command is addressed to.
#[derive(Debug, Clone, PartialEq, Eq)]
pub enum HostSelector {
    /// This machine.
    Local,
    /// The WSL distribution of exactly this name.
    Wsl(String),
}

/// The host that a text selects: `Some(None)` for this machine.
pub open spec fn selected(raw: Seq<char>) -> Option<Option<Seq<char>>> {
    if raw == "local"@ {
        Some(None)
    } else {
        match text::after_prefix(raw, "wsl:"@) {
            Some(name) if name.len() > 0 => Some(Some(name)),
            _ => None,
        }
    }
}

impl HostSelector {
    /// The distribution that is selected, if one is.
    pub open spec fn distribution_name(self) -> Option<Seq<char>> {
        match self {
            HostSelector::Local => None,
            HostSelector::Wsl(name) => Some(name@),
        }
    }

    /// Reads a selector. A refusal names both forms.
    pub fn parse(raw: &str) -> (selector: Result<HostSelector, String>)
        ensures
            match selector {
                Ok(found) => selected(raw@) == Some(found.distribution_name()),
                Err(refusal) => selected(raw@) is None && refusal@ == if text::after_prefix(
                    raw@,
                    "wsl:"@,
                ) is Some {
                    "`wsl:` needs the name of a distribution, as in `wsl:Ubuntu`; `runner-manager wsl list` names them"@
                } else {
                    "a host is `local` or `wsl:NAME`; `runner-manager wsl list` names the distributions"@
                },
            },
    {
        if same_text(raw, "local") {
            return Ok(HostSelector::Local);
        }
        match strip_prefix(raw, "wsl:") {
            Some(name) => {
                if name.as_str().is_empty() {
                    Err(
                        "`wsl:` needs the name of a distribution, as in `wsl:Ubuntu`; `runner-manager wsl list` names them".to_owned(),
                    )
                } else {
                    Ok(HostSelector::Wsl(name))
                }
            },
            None => Err(
                "a host is `local` or `wsl:NAME`; `runner-manager wsl list` names the distributions".to_owned(),
            ),
        }
    }

    /// The distribution that is selected, if one is.
    pub fn distribution(&self) -> (name: Option<&str>)
        ensures
            match name {
                Some(found) => self.distribution_name() == Some(found@),
                None => self.distribution_name() is None,
            },
    {
        match self {
            HostSelector::Local => None,
            HostSelector::Wsl(name) => Some(name.as_str()),
        }
    }

    /// The selector as it is typed.
    pub open spec fn spelled(self) -> Seq<char> {
        match self {
            HostSelector::Local => "local"@,
            HostSelector::Wsl(name) => "wsl:"@ + name@,
        }
    }

    /// The selector as it is typed.
    pub fn to_text(&self) -> (spelled: String)
        ensures
            spelled@ == self.spelled(),
    {
        match self {
            HostSelector::Local => "local".to_owned(),
            HostSelector::Wsl(name) => {
                let mut spelled = "wsl:".to_owned();
                spelled.append(name.as_str());
                spelled
            },
        }
    }
}

/// A selector reads back as what it was written from: the name is carried
/// exactly, whatever it is.
pub proof fn law_a_selector_carries_the_exact_name(selector: HostSelector)
    requires
        selector matches HostSelector::Wsl(name) ==> name@.len() > 0,
    ensures
        selected(selector.spelled()) == Some(selector.distribution_name()),
{
    match selector {
        HostSelector::Local => {},
        HostSelector::Wsl(name) => {
            let raw = "wsl:"@ + name@;
            reveal_strlit("wsl:");
            reveal_strlit("local");
            assert(raw[3] == ':');
            assert("local"@[3] == 'a');
            assert("wsl:"@.is_prefix_of(raw)) by {
                assert(raw.subrange(0, "wsl:"@.len() as int) =~= "wsl:"@);
            }
            assert(raw.skip("wsl:"@.len() as int) =~= name@);
        },
    }
}

// ---------------------------------------------------------------------------
// The arguments to forward
// ---------------------------------------------------------------------------

/// The arguments of a command line as text; `None` for one that is not text.
pub open spec fn argument_texts(arguments: Seq<Option<String>>) -> Seq<Option<Seq<char>>> {
    Seq::new(arguments.len(), |i: int| text::opt_text(arguments[i]))
}

/// Whether the argument at a position is the value of a selector before it.
pub open spec fn is_selector_value(arguments: Seq<Option<Seq<char>>>, i: int) -> bool
    decreases i,
{
    i >= 2 && arguments[i - 1] == Some(HOST_OPTION@) && !is_selector_value(arguments, i - 1)
}

/// Whether the argument at a position is forwarded: everything is but the
/// program's name, a selector in either spelling, and a selector's value.
pub open spec fn is_forwarded(arguments: Seq<Option<Seq<char>>>, i: int) -> bool {
    &&& i >= 1
    &&& !is_selector_value(arguments, i)
    &&& arguments[i] != Some(HOST_OPTION@)
    &&& !(arguments[i] matches Some(argument) && HOST_OPTION_EQUALS@.is_prefix_of(argument))
}

/// The positions before `end` that are forwarded, in order.
pub open spec fn forwarded_before(arguments: Seq<Option<Seq<char>>>, end: int) -> Seq<int>
    decreases end,
{
    if end <= 0 {
        Seq::empty()
    } else {
        let before = forwarded_before(arguments, end - 1);
        if is_forwarded(arguments, end - 1) {
            before.push(end - 1)
        } else {
            before
        }
    }
}

/// Positions as whole numbers.
pub open spec fn positions(found: Seq<usize>) -> Seq<int> {
    Seq::new(found.len(), |i: int| found[i] as int)
}

/// Which of the arguments to forward, by position.
pub fn forwarded_positions(arguments: &Vec<Option<String>>) -> (kept: Vec<usize>)
    ensures
        positions(kept@) == forwarded_before(
            argument_texts(arguments@),
            arguments@.len() as int,
        ),
        forall|k: int| 0 <= k < kept@.len() ==> #[trigger] kept@[k] < arguments@.len(),
{
    let ghost all = argument_texts(arguments@);
    let mut kept: Vec<usize> = Vec::new();
    let mut skip_a_value = false;
    let mut i: usize = 0;
    while i < arguments.len()
        invariant
            i <= arguments@.len(),
            all == argument_texts(arguments@),
            positions(kept@) == forwarded_before(all, i as int),
            skip_a_value == is_selector_value(all, i as int),
            forall|k: int| 0 <= k < kept@.len() ==> #[trigger] kept@[k] < arguments@.len(),
        decreases arguments.len() - i,
    {
        let ghost before = kept@;
        assert(all[i as int] == text::opt_text(arguments@[i as int]));
        let mut is_selector = false;
        let mut is_joined = false;
        if let Some(argument) = &arguments[i] {
            is_selector = same_text(argument.as_str(), HOST_OPTION);
            is_joined = starts_with(argument.as_str(), HOST_OPTION_EQUALS);
        }
        assert(is_selector == (all[i as int] == Some(HOST_OPTION@)));
        if i >= 1 && !skip_a_value && !is_selector && !is_joined {
            kept.push(i);
            assert(positions(kept@) == positions(before).push(i as int));
        }
        skip_a_value = i >= 1 && is_selector && !skip_a_value;
        i = i + 1;
    }
    kept
}

/// The arguments at these positions.
pub open spec fn picked(arguments: Seq<Seq<char>>, at: Seq<int>) -> Seq<Seq<char>> {
    Seq::new(at.len(), |k: int| arguments[at[k]])
}

/// Every argument, as text.
pub open spec fn all_text(arguments: Seq<Seq<char>>) -> Seq<Option<Seq<char>>> {
    Seq::new(arguments.len(), |i: int| Some(arguments[i]))
}

/// The arguments that are forwarded out of a command line.
pub open spec fn forwarded(arguments: Seq<Seq<char>>) -> Seq<Seq<char>> {
    picked(arguments, forwarded_before(all_text(arguments), arguments.len() as int))
}

/// The arguments to forward: the ones that were typed, minus the selector.
pub fn forwarded_arguments(arguments: &Vec<String>) -> (kept: Vec<String>)
    ensures
        text::texts(kept@) == forwarded(text::texts(arguments@)),
{
    let mut optional: Vec<Option<String>> = Vec::new();
    let mut i: usize = 0;
    while i < arguments.len()
        invariant
            i <= arguments@.len(),
            optional@.len() == i,
            forall|k: int| 0 <= k < i ==> text::opt_text(#[trigger] optional@[k]) == Some(
                arguments@[k]@,
            ),
        decreases arguments.len() - i,
    {
        optional.push(Some(arguments[i].clone()));
        i = i + 1;
    }
    assert(argument_texts(optional@) == all_text(text::texts(arguments@)));
    let at = forwarded_positions(&optional);
    let mut kept: Vec<String> = Vec::new();
    let mut k: usize = 0;
    while k < at.len()
        invariant
            k <= at@.len(),
            kept@.len() == k,
            optional@.len() == arguments@.len(),
            forall|j: int| 0 <= j < at@.len() ==> #[trigger] at@[j] < optional@.len(),
            forall|j: int| 0 <= j < k ==> (#[trigger] kept@[j])@ == arguments@[at@[j] as int]@,
        decreases at.len() - k,
    {
        kept.push(arguments[at[k]].clone());
        k = k + 1;
    }
    assert(text::texts(kept@) == picked(text::texts(arguments@), positions(at@)));
    kept
}

/// The positions that are forwarded are in order and are exactly the ones that
/// are neither the program, nor a selector, nor a selector's value.
proof fn lemma_forwarded_before(arguments: Seq<Option<Seq<char>>>, end: int)
    requires
        0 <= end <= arguments.len(),
    ensures
        forall|k: int|
            0 <= k < forwarded_before(arguments, end).len() ==> {
                let at = #[trigger] forwarded_before(arguments, end)[k];
                0 <= at < end && is_forwarded(arguments, at)
            },
        forall|i: int| #[trigger]
            is_forwarded(arguments, i) && 0 <= i < end ==> forwarded_before(
                arguments,
                end,
            ).contains(i),
    decreases end,
{
    if end > 0 {
        lemma_forwarded_before(arguments, end - 1);
        let before = forwarded_before(arguments, end - 1);
        let now = forwarded_before(arguments, end);
        assert forall|i: int| #[trigger]
            is_forwarded(arguments, i) && 0 <= i < end implies now.contains(i) by {
            if i < end - 1 {
                let k = choose|k: int| 0 <= k < before.len() && before[k] == i;
                assert(now[k] == i);
            } else {
                assert(now[now.len() - 1] == i);
            }
        }
    }
}

/// Only the selector is removed: an argument that is not the program's name, is
/// not a selector and does not follow one is forwarded, in its place.
pub proof fn law_only_the_selector_is_removed(arguments: Seq<Seq<char>>, i: int)
    requires
        1 <= i < arguments.len(),
        arguments[i] != HOST_OPTION@,
        !HOST_OPTION_EQUALS@.is_prefix_of(arguments[i]),
        i == 1 || arguments[i - 1] != HOST_OPTION@,
    ensures
        forwarded(arguments).contains(arguments[i]),
{
    let all = all_text(arguments);
    assert(is_forwarded(all, i));
    lemma_forwarded_before(all, arguments.len() as int);
    let at = forwarded_before(all, arguments.len() as int);
    let k = choose|k: int| 0 <= k < at.len() && at[k] == i;
    assert(forwarded(arguments)[k] == arguments[i]);
}

/// What is forwarded never addresses a third host: no selector is left in it,
/// in either spelling.
pub proof fn law_no_selector_is_forwarded(arguments: Seq<Seq<char>>, k: int)
    requires
        0 <= k < forwarded(arguments).len(),
    ensures
        forwarded(arguments)[k] != HOST_OPTION@,
        !HOST_OPTION_EQUALS@.is_prefix_of(forwarded(arguments)[k]),
{
    let all = all_text(arguments);
    lemma_forwarded_before(all, arguments.len() as int);
    let at = forwarded_before(all, arguments.len() as int)[k];
    assert(is_forwarded(all, at));
    assert(all[at] == Some(arguments[at]));
}

/// Where no argument is a selector, everything after the program is forwarded.
proof fn lemma_everything_is_forwarded(arguments: Seq<Option<Seq<char>>>, end: int)
    requires
        0 <= end <= arguments.len(),
        forall|i: int|
            1 <= i < arguments.len() ==> #[trigger] arguments[i] != Some(HOST_OPTION@) && !(
            arguments[i] matches Some(argument) && HOST_OPTION_EQUALS@.is_prefix_of(argument)),
    ensures
        forwarded_before(arguments, end) == Seq::new(
            if end <= 1 {
                0
            } else {
                (end - 1) as nat
            },
            |k: int| k + 1,
        ),
    decreases end,
{
    if end > 0 {
        lemma_everything_is_forwarded(arguments, end - 1);
        if end > 1 {
            assert(end - 1 >= 2 ==> arguments[end - 2] != Some(HOST_OPTION@));
            assert(is_forwarded(arguments, end - 1));
        }
    }
}

/// Forwarding again changes nothing: a command line that is made of a program
/// and what was forwarded is forwarded whole.
pub proof fn law_forwarding_twice_changes_nothing(program: Seq<char>, arguments: Seq<Seq<char>>)
    ensures
        forwarded(seq![program] + forwarded(arguments)) == forwarded(arguments),
{
    let once = forwarded(arguments);
    let line = seq![program] + once;
    let all = all_text(line);
    assert forall|i: int| 1 <= i < all.len() implies #[trigger] all[i] != Some(HOST_OPTION@) && !(
    all[i] matches Some(argument) && HOST_OPTION_EQUALS@.is_prefix_of(argument)) by {
        assert(all[i] == Some(once[i - 1]));
        law_no_selector_is_forwarded(arguments, i - 1);
    }
    lemma_everything_is_forwarded(all, all.len() as int);
    assert(forwarded(line) =~= once);
}

// ---------------------------------------------------------------------------
// The plan
// ---------------------------------------------------------------------------

/// The exact program and argument vector that a proxied command becomes.
#[derive(Debug, Clone)]
pub struct ProxyPlan {
    program: String,
    arguments: Vec<String>,
}

/// The arguments that run a program inside a distribution.
pub open spec fn inside(
    distribution: Seq<char>,
    program: Seq<char>,
    rest: Seq<Seq<char>>,
) -> Seq<Seq<char>> {
    seq![
        "--distribution"@,
        distribution,
        "--user"@,
        LINUX_USER@,
        "--exec"@,
        program,
    ] + rest
}

/// The arguments that run a program inside a distribution.
pub fn exec_arguments(distribution: &str, program: &str, rest: Vec<String>) -> (arguments: Vec<
    String,
>)
    ensures
        text::texts(arguments@) == inside(distribution@, program@, text::texts(rest@)),
{
    let mut arguments: Vec<String> = vec![
        "--distribution".to_owned(),
        distribution.to_owned(),
        "--user".to_owned(),
        LINUX_USER.to_owned(),
        "--exec".to_owned(),
        program.to_owned(),
    ];
    let mut more = rest;
    let ghost head = arguments@;
    arguments.append(&mut more);
    assert(text::texts(arguments@) == inside(distribution@, program@, text::texts(rest@)));
    arguments
}

impl ProxyPlan {
    /// The program that is started.
    pub closed spec fn started(&self) -> Seq<char> {
        self.program@
    }

    /// The argument vector.
    pub closed spec fn vector(&self) -> Seq<Seq<char>> {
        text::texts(self.arguments@)
    }

    /// `wsl.exe --distribution NAME --user root --exec <binary> <forwarded…>`.
    /// `unusable` is why a distribution cannot have this name, when it cannot.
    pub fn new(
        wsl: &str,
        distribution: &str,
        unusable: Option<WslError>,
        linux_binary: &str,
        forwarded: Vec<String>,
    ) -> (plan: Result<ProxyPlan, CliError>)
        ensures
            match (unusable, plan) {
                (None, Ok(found)) => found.started() == wsl@ && found.vector() == inside(
                    distribution@,
                    linux_binary@,
                    text::texts(forwarded@),
                ),
                (Some(problem), Err(error)) => error@ == wsl_error::reported(problem),
                _ => false,
            },
    {
        match unusable {
            Some(problem) => Err(wsl_failure(&problem)),
            None => Ok(
                ProxyPlan {
                    program: wsl.to_owned(),
                    arguments: exec_arguments(distribution, linux_binary, forwarded),
                },
            ),
        }
    }

    /// The program that will be started.
    pub fn program(&self) -> (program: &str)
        ensures
            program@ == self.started(),
    {
        self.program.as_str()
    }

    /// The literal argument vector.
    pub fn arguments(&self) -> (arguments: &Vec<String>)
        ensures
            text::texts(arguments@) == self.vector(),
    {
        &self.arguments
    }
}

/// Reports a program that could not be started to carry a command.
pub fn cannot_start(program: &str, error: &str) -> (failed: CliError)
    ensures
        failed@ == failure::error_with(
            Failure::WslProvisioning,
            "cannot start "@ + program@ + " to carry this command into the distribution: "@
                + error@,
            "runner-manager wsl list"@,
        ),
{
    let mut message = "cannot start ".to_owned();
    message.append(program);
    message.append(" to carry this command into the distribution: ");
    message.append(error);
    CliError::with_remedy(Failure::WslProvisioning, message, "runner-manager wsl list")
}

/// The number that a proxied command exits with: its own, or `128 + signal`,
/// or the one given for a child that has neither.
pub open spec fn exit_number(code: Option<i32>, signal: Option<u8>, otherwise: u8) -> int {
    match (code, signal) {
        (Some(number), _) => number as int,
        (None, Some(name)) => 128 + name,
        (None, None) => otherwise as int,
    }
}

/// The number that a proxied command exits with. `otherwise` is the number of
/// the class that a WSL host's failure belongs to.
pub fn exit_code_of(code: Option<i32>, signal: Option<u8>, otherwise: u8) -> (number: i32)
    ensures
        number == exit_number(code, signal, otherwise),
{
    match (code, signal) {
        (Some(number), _) => number,
        (None, Some(name)) => 128 + name as i32,
        (None, None) => otherwise as i32,
    }
}

// ---------------------------------------------------------------------------
// Routing
// ---------------------------------------------------------------------------

/// A command, as far as its routing goes.
#[derive(Debug, Clone, Copy, PartialEq, Eq, Structural)]
pub enum CommandFamily {
    /// `wsl …`: manages a distribution from the Windows side.
    Wsl,
    /// `wsl-host …`: the Linux end of the lifecycle task.
    WslHost,
    /// `auth login`.
    AuthLogin,
    /// `update`.
    Update,
    /// Everything else.
    Other,
}

/// What becomes of a command that is addressed to a distribution.
#[derive(Debug, Clone, Copy, PartialEq, Eq, Structural)]
pub enum Route {
    /// The device flow runs here, and the credential goes to the distribution.
    BrokeredLogin,
    /// The distribution is installed again from here, at this build's version.
    Reinstall,
    /// The command is carried into the distribution as it was typed.
    Forward,
}

/// The refusal of a command that only makes sense on this machine.
pub open spec fn unproxyable(family: CommandFamily) -> Option<ErrorView> {
    match family {
        CommandFamily::Wsl => Some(
            failure::error_with(
                Failure::InvalidArgument,
                "`wsl` manages a distribution from the Windows side — it drives `wsl.exe` and Task Scheduler, neither of which exists inside the distribution, so `--host wsl:...` cannot carry it."@,
                "runner-manager wsl status --distribution NAME"@,
            ),
        ),
        CommandFamily::WslHost => Some(
            failure::error_with(
                Failure::InvalidArgument,
                "`wsl-host` is the Linux end of the lifecycle task and is started by that task, not by an operator, so `--host wsl:...` cannot carry it."@,
                "runner-manager wsl install --distribution NAME"@,
            ),
        ),
        CommandFamily::AuthLogin | CommandFamily::Update | CommandFamily::Other => None,
    }
}

/// Refuses the two families that address this machine by construction.
pub fn refuse_a_command_that_cannot_be_proxied(family: CommandFamily) -> (refused: Result<
    (),
    CliError,
>)
    ensures
        match refused {
            Ok(_) => unproxyable(family) is None,
            Err(error) => unproxyable(family) == Some(error@),
        },
{
    match family {
        CommandFamily::Wsl => Err(
            CliError::with_remedy(
                Failure::InvalidArgument,
                "`wsl` manages a distribution from the Windows side — it drives `wsl.exe` and Task Scheduler, neither of which exists inside the distribution, so `--host wsl:...` cannot carry it.".to_owned(),
                "runner-manager wsl status --distribution NAME",
            ),
        ),
        CommandFamily::WslHost => Err(
            CliError::with_remedy(
                Failure::InvalidArgument,
                "`wsl-host` is the Linux end of the lifecycle task and is started by that task, not by an operator, so `--host wsl:...` cannot carry it.".to_owned(),
                "runner-manager wsl install --distribution NAME",
            ),
        ),
        CommandFamily::AuthLogin | CommandFamily::Update | CommandFamily::Other => Ok(()),
    }
}

/// The route of a command that is not refused.
pub open spec fn route_of(family: CommandFamily) -> Route {
    match family {
        CommandFamily::AuthLogin => Route::BrokeredLogin,
        CommandFamily::Update => Route::Reinstall,
        CommandFamily::Wsl | CommandFamily::WslHost | CommandFamily::Other => Route::Forward,
    }
}

/// What becomes of a command that is addressed to a distribution.
pub open spec fn routed(
    family: CommandFamily,
    adapter: Option<WslError>,
    unusable: Option<WslError>,
) -> Result<Route, ErrorView> {
    match (unproxyable(family), adapter, unusable) {
        (Some(refusal), _, _) => Err(refusal),
        (None, Some(problem), _) => Err(wsl_error::reported(problem)),
        (None, None, Some(problem)) => Err(wsl_error::reported(problem)),
        (None, None, None) => Ok(route_of(family)),
    }
}

/// Decides what becomes of a command that is addressed to a distribution:
/// refused when it only makes sense here or the name cannot be used, and
/// otherwise routed. `adapter` is why this machine has no WSL, when it has
/// none, and `unusable` why a distribution cannot have this name, when it
/// cannot.
pub fn run_on_selected_host(
    family: CommandFamily,
    adapter: Option<WslError>,
    unusable: Option<WslError>,
) -> (route: Result<Route, CliError>)
    ensures
        routed(family, adapter, unusable) == (match route {
            Ok(found) => Ok::<Route, ErrorView>(found),
            Err(error) => Err(error@),
        }),
{
    match refuse_a_command_that_cannot_be_proxied(family) {
        Err(error) => return Err(error),
        Ok(_) => {},
    }
    if let Some(problem) = adapter {
        return Err(wsl_failure(&problem));
    }
    if let Some(problem) = unusable {
        return Err(wsl_failure(&problem));
    }
    Ok(
        match family {
            CommandFamily::AuthLogin => Route::BrokeredLogin,
            CommandFamily::Update => Route::Reinstall,
            CommandFamily::Wsl | CommandFamily::WslHost | CommandFamily::Other => Route::Forward,
        },
    )
}

/// A sign-in is never forwarded: its device flow runs where the browser is.
pub proof fn law_a_sign_in_is_never_forwarded()
    ensures
        route_of(CommandFamily::AuthLogin) != Route::Forward,
        forall|family: CommandFamily|
            route_of(family) == Route::BrokeredLogin ==> family == CommandFamily::AuthLogin,
{
}

/// This machine is selected by `local`, a distribution by `wsl:` and its name,
/// and nothing by anything else.
pub proof fn law_a_host_is_selected_by_its_spelling(raw: Seq<char>, name: Seq<char>)
    ensures
        selected(raw) == Some(None::<Seq<char>>) <==> raw == "local"@,
        selected(raw) == Some(Some(name)) <==> raw == "wsl:"@ + name && name.len() > 0,
        selected(raw) is None <==> raw != "local"@ && !(raw.len() > 4 && raw.take(4) == "wsl:"@),
{
    reveal_strlit("wsl:");
    reveal_strlit("local");
    let prefix = "wsl:"@;
    assert("local"@[0] == 'l' && prefix[0] == 'w');
    if prefix.is_prefix_of(raw) {
        assert(raw.take(4) =~= prefix);
        assert(raw =~= prefix + raw.skip(4));
        assert(raw[0] == 'w');
    }
    if raw.len() > 4 && raw.take(4) == prefix {
        assert(raw.subrange(0, 4) =~= raw.take(4));
        assert(raw[0] == raw.take(4)[0]);
    }
    if raw == prefix + name {
        assert(raw.subrange(0, 4) =~= prefix);
        assert(raw.skip(4) =~= name);
        assert(raw[0] == 'w');
    }
}

/// What is forwarded of the end of a command line, where that end is all of a
/// shorter one: the same, so many positions later.
proof fn lemma_shifted(
    longer: Seq<Option<Seq<char>>>,
    shorter: Seq<Option<Seq<char>>>,
    by: int,
    end: int,
)
    requires
        by >= 1,
        1 <= end <= shorter.len(),
        longer.len() == shorter.len() + by,
        forall|i: int| 1 <= i < shorter.len() ==> longer[i + by] == #[trigger] shorter[i],
        !is_selector_value(longer, by + 1),
    ensures
        forall|i: int|
            1 <= i < end ==> is_selector_value(longer, i + by) == #[trigger] is_selector_value(
                shorter,
                i,
            ),
        forwarded_before(longer, end + by) == forwarded_before(longer, 1 + by) + Seq::new(
            forwarded_before(shorter, end).len(),
            |k: int| forwarded_before(shorter, end)[k] + by,
        ),
    decreases end,
{
    if end == 1 {
        assert(forwarded_before(shorter, 1).len() == 0) by {
            assert(forwarded_before(shorter, 0).len() == 0);
        }
        assert(forwarded_before(longer, 1 + by) + Seq::new(
            forwarded_before(shorter, 1).len(),
            |k: int| forwarded_before(shorter, 1)[k] + by,
        ) =~= forwarded_before(longer, 1 + by));
    } else {
        lemma_shifted(longer, shorter, by, end - 1);
        let i = end - 1;
        assert(longer[i + by] == shorter[i]);
        if i >= 2 {
            assert(longer[i - 1 + by] == shorter[i - 1]);
            assert(is_selector_value(longer, i - 1 + by) == is_selector_value(shorter, i - 1));
        }
        assert(is_selector_value(longer, i + by) == is_selector_value(shorter, i));
        assert(is_forwarded(longer, i + by) == is_forwarded(shorter, i));
        let before = forwarded_before(shorter, end - 1);
        let now = forwarded_before(shorter, end);
        let moved = Seq::new(before.len(), |k: int| before[k] + by);
        if is_forwarded(shorter, i) {
            assert(Seq::new(now.len(), |k: int| now[k] + by) =~= moved.push(i + by));
        } else {
            assert(Seq::new(now.len(), |k: int| now[k] + by) =~= moved);
        }
        assert(forwarded_before(longer, end + by) =~= forwarded_before(longer, 1 + by) + Seq::new(
            now.len(),
            |k: int| now[k] + by,
        ));
    }
}

/// The arguments behind the first ones are forwarded as they would be without
/// them.
proof fn lemma_forwarded_behind(program: Seq<char>, first: Seq<Seq<char>>, rest: Seq<Seq<char>>)
    requires
        first.len() >= 1,
        !is_selector_value(all_text(seq![program] + first + rest), first.len() as int + 1),
    ensures
        forwarded(seq![program] + first + rest) == picked(
            seq![program] + first + rest,
            forwarded_before(all_text(seq![program] + first + rest), 1 + first.len() as int),
        ) + forwarded(seq![program] + rest),
{
    let line = seq![program] + first + rest;
    let short = seq![program] + rest;
    let by = first.len() as int;
    let longer = all_text(line);
    let shorter = all_text(short);
    assert forall|i: int| 1 <= i < shorter.len() implies longer[i + by] == #[trigger] shorter[i] by {
        assert(line[i + by] == rest[i - 1]);
        assert(short[i] == rest[i - 1]);
    }
    lemma_shifted(longer, shorter, by, shorter.len() as int);
    lemma_forwarded_before(shorter, shorter.len() as int);
    let head = forwarded_before(longer, 1 + by);
    let at = forwarded_before(shorter, shorter.len() as int);
    let all = forwarded_before(longer, longer.len() as int);
    assert(all == head + Seq::new(at.len(), |k: int| at[k] + by));
    assert forall|k: int| 0 <= k < at.len() implies line[#[trigger] at[k] + by] == short[at[k]] by {
        assert(is_forwarded(shorter, at[k]));
        assert(1 <= at[k] < shorter.len());
        assert(longer[at[k] + by] == shorter[at[k]]);
    }
    assert(forwarded(line) =~= picked(line, head) + forwarded(short));
}

/// An argument that is no selector is forwarded in its place, and the rest of the
/// command line as it would be without it.
pub proof fn law_an_argument_is_forwarded_in_its_place(
    program: Seq<char>,
    argument: Seq<char>,
    rest: Seq<Seq<char>>,
)
    requires
        argument != "--host"@,
        !(argument.len() >= 7 && argument.take(7) == "--host="@),
    ensures
        forwarded(seq![program] + seq![argument] + rest) == seq![argument] + forwarded(
            seq![program] + rest,
        ),
        forwarded(seq![program]) == Seq::<Seq<char>>::empty(),
{
    reveal_strlit("--host=");
    if "--host="@.is_prefix_of(argument) {
        assert(argument.take(7) =~= "--host="@);
    }
    let line = seq![program] + seq![argument] + rest;
    let all = all_text(line);
    assert(all[1] == Some(argument));
    reveal_with_fuel(is_selector_value, 3);
    reveal_with_fuel(forwarded_before, 3);
    assert(is_forwarded(all, 1));
    assert(forwarded_before(all, 2) =~= seq![1int]);
    lemma_forwarded_behind(program, seq![argument], rest);
    assert(picked(line, seq![1int]) =~= seq![argument]);
    let alone = all_text(seq![program]);
    assert(forwarded_before(alone, 1).len() == 0);
    assert(forwarded(seq![program]) =~= Seq::<Seq<char>>::empty());
}

/// A selector is taken out together with its value, whatever the value is, and
/// one that carries its value with an equals sign is taken out alone. What stands
/// behind it is forwarded as it would be without it.
pub proof fn law_a_selector_is_taken_out_with_its_value(
    program: Seq<char>,
    value: Seq<char>,
    rest: Seq<Seq<char>>,
)
    ensures
        forwarded(seq![program] + seq!["--host"@, value] + rest) == forwarded(
            seq![program] + rest,
        ),
        forwarded(seq![program] + seq!["--host="@ + value] + rest) == forwarded(
            seq![program] + rest,
        ),
        forwarded(seq![program] + seq!["--host"@]) == Seq::<Seq<char>>::empty(),
{
    reveal_strlit("--host");
    reveal_strlit("--host=");
    reveal_with_fuel(is_selector_value, 4);
    reveal_with_fuel(forwarded_before, 4);
    let apart = seq![program] + seq!["--host"@, value] + rest;
    let all = all_text(apart);
    assert(all[1] == Some("--host"@) && all[2] == Some(value));
    assert(is_selector_value(all, 2) && !is_selector_value(all, 3));
    assert(forwarded_before(all, 3).len() == 0);
    lemma_forwarded_behind(program, seq!["--host"@, value], rest);
    assert(picked(apart, forwarded_before(all, 3)) =~= Seq::<Seq<char>>::empty());
    assert(forwarded(apart) =~= forwarded(seq![program] + rest));
    let both = "--host="@ + value;
    let joined = seq![program] + seq![both] + rest;
    let texts = all_text(joined);
    assert(texts[1] == Some(both));
    assert("--host="@.is_prefix_of(both)) by {
        assert(both.subrange(0, 7) =~= "--host="@);
    }
    assert(both != "--host"@) by {
        assert(both.len() >= 7);
    }
    assert(!is_selector_value(texts, 2));
    assert(forwarded_before(texts, 2).len() == 0);
    lemma_forwarded_behind(program, seq![both], rest);
    assert(picked(joined, forwarded_before(texts, 2)) =~= Seq::<Seq<char>>::empty());
    assert(forwarded(joined) =~= forwarded(seq![program] + rest));
    let last = seq![program] + seq!["--host"@];
    assert(all_text(last)[1] == Some("--host"@));
    assert(forwarded_before(all_text(last), 2).len() == 0);
    assert(forwarded(last) =~= Seq::<Seq<char>>::empty());
}

/// A command that goes into a distribution is run there by root, as the program
/// and the arguments that were given, and nothing reads them on the way.
pub proof fn law_a_command_is_run_inside_by_root(
    distribution: Seq<char>,
    program: Seq<char>,
    rest: Seq<Seq<char>>,
)
    ensures
        ({
            let vector = inside(distribution, program, rest);
            &&& vector.len() == rest.len() + 6
            &&& vector[0] == "--distribution"@ && vector[1] == distribution
            &&& vector[2] == "--user"@ && vector[3] == "root"@
            &&& vector[4] == "--exec"@ && vector[5] == program
            &&& vector.skip(6) == rest
        }),
{
    assert(inside(distribution, program, rest).skip(6) =~= rest);
}

/// A command exits with its own number. Only one that a signal ended has none,
/// and then the signal is told above 128.
pub proof fn law_a_command_keeps_its_exit_number(
    code: i32,
    signal: Option<u8>,
    name: u8,
    otherwise: u8,
)
    ensures
        exit_number(Some(code), signal, otherwise) == code,
        exit_number(None, Some(name), otherwise) - 128 == name,
        exit_number(None, None, otherwise) == otherwise,
{
}

/// Only the two families that address this machine are refused as such, and
/// always before anything is asked of this machine.
pub proof fn law_a_command_for_this_machine_is_refused(
    family: CommandFamily,
    adapter: Option<WslError>,
    unusable: Option<WslError>,
)
    ensures
        ({
            let here = family == CommandFamily::Wsl || family == CommandFamily::WslHost;
            &&& here ==> (routed(family, adapter, unusable) matches Err(error) && error.class
                == Failure::InvalidArgument && error.remedy is Some && routed(family, None, None)
                == Err::<Route, ErrorView>(error))
            &&& here <==> routed(family, None, None) is Err
        }),
{
}

/// A command that is not refused goes by its family: a sign-in runs here, an
/// update installs again from here, and the rest is carried over. A machine
/// without WSL and a name that cannot be used are refused, in this order.
pub proof fn law_a_command_is_routed_by_its_family(
    family: CommandFamily,
    adapter: Option<WslError>,
    unusable: Option<WslError>,
)
    requires
        family != CommandFamily::Wsl,
        family != CommandFamily::WslHost,
    ensures
        adapter matches Some(problem) ==> routed(family, adapter, unusable) == Err::<
            Route,
            ErrorView,
        >(wsl_error::reported(problem)),
        adapter is None ==> (unusable matches Some(problem) ==> routed(family, adapter, unusable)
            == Err::<Route, ErrorView>(wsl_error::reported(problem))),
        adapter is None && unusable is None ==> (routed(family, adapter, unusable) matches Ok(route)
            && (route == Route::BrokeredLogin <==> family == CommandFamily::AuthLogin) && (route
            == Route::Reinstall <==> family == CommandFamily::Update) && (route == Route::Forward
            <==> family == CommandFamily::Other)),
{
}

} // verus!
