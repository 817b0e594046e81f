//! How a copy of the program was installed, worked out from where it runs.

use vstd::prelude::*;

use crate::failure;
use crate::failure::{CliError, ErrorView, Failure};
use crate::paths;
use crate::paths::{has_component, lies_directly_in, HostPath, PartView, PathPart};
use crate::release;
use crate::release::display_path;
use crate::text::same_text;

verus! {

/// The install channel.
#[derive(Debug, Clone, Copy, PartialEq, Eq, Structural)]
pub enum Channel {
    /// The install script's layout, or any copy placed by hand. The one channel
    /// that is updated here.
    Archive,
    /// A binary inside an npm package.
    Npm,
    /// A binary inside a Homebrew `Cellar`.
    Homebrew,
    /// A binary that `cargo install` put in place.
    Cargo,
    /// A build inside a checkout.
    SourceBuild,
    /// The private copy that the service runs.
    ServiceCopy,
}

impl Channel {
    /// How the channel is named in a report.
    pub open spec fn described(self) -> Seq<char> {
        match self {
            Channel::Archive => "release archive"@,
            Channel::Npm => "npm"@,
            Channel::Homebrew => "Homebrew"@,
            Channel::Cargo => "cargo install"@,
            Channel::SourceBuild => "a build in a checkout"@,
            Channel::ServiceCopy => "the copy the service runs"@,
        }
    }

    /// Names the channel in a report.
    pub fn describe(&self) -> (description: &'static str)
        ensures
            description@ == self.described(),
    {
        match self {
            Channel::Archive => "release archive",
            Channel::Npm => "npm",
            Channel::Homebrew => "Homebrew",
            Channel::Cargo => "cargo install",
            Channel::SourceBuild => "a build in a checkout",
            Channel::ServiceCopy => "the copy the service runs",
        }
    }
}

/// Whether a path is `…/target/debug/<file>` or `…/target/release/<file>`.
pub open spec fn is_checkout_build(path: Seq<PartView>) -> bool {
    match paths::parent_of(path) {
        Some(profile) => (paths::name_of(profile) == Some("debug"@) || paths::name_of(profile)
            == Some("release"@)) && paths::parent_of(profile) is Some && paths::name_of(
            paths::parent_of(profile)->0,
        ) == Some("target"@),
        None => false,
    }
}

/// The channel of a path, given where the service's copies live (if that place
/// exists) and where cargo installs.
pub open spec fn channel_of(
    path: Seq<PartView>,
    service_bin: Option<Seq<PartView>>,
    cargo_bin: Seq<PartView>,
) -> Channel {
    let parent = paths::parent_of(path);
    if service_bin is Some && parent == service_bin {
        Channel::ServiceCopy
    } else if path.contains(PartView::Normal("node_modules"@)) {
        Channel::Npm
    } else if path.contains(PartView::Normal("Cellar"@)) {
        Channel::Homebrew
    } else if parent == Some(cargo_bin) {
        Channel::Cargo
    } else if is_checkout_build(path) {
        Channel::SourceBuild
    } else {
        Channel::Archive
    }
}

/// Whether the component at a position is this name.
fn named_at(path: &HostPath, index: usize, wanted: &str) -> (named: bool)
    requires
        index < path.parts@.len(),
    ensures
        named == (path.components()[index as int] == PartView::Normal(wanted@)),
{
    match &path.parts[index] {
        PathPart::Normal(name) => same_text(name.as_str(), wanted),
        _ => false,
    }
}

/// Whether a path is a build output inside a checkout. Both directories are
/// needed: an archive unpacked into one that happens to be called `release` is
/// not a checkout.
fn is_build_output(path: &HostPath) -> (yes: bool)
    ensures
        yes == is_checkout_build(path.components()),
{
    let n: usize = path.parts.len();
    let ghost parts = path.components();
    if n == 0 {
        return false;
    }
    assert(parts.last() == parts[n - 1]);
    let contained = match &path.parts[n - 1] {
        PathPart::Normal(_) | PathPart::CurDir | PathPart::ParentDir => true,
        _ => false,
    };
    if !contained || n < 3 {
        proof {
            if contained && n == 2 {
                assert(parts.drop_last().drop_last().len() == 0);
            }
            if contained && n == 1 {
                assert(parts.drop_last().len() == 0);
            }
        }
        return false;
    }
    let ghost profile = parts.drop_last();
    assert(profile.last() == parts[n - 2]);
    assert(profile.drop_last().last() == parts[n - 3]);
    (named_at(path, n - 2, "debug") || named_at(path, n - 2, "release")) && named_at(
        path,
        n - 3,
        "target",
    )
}

/// Classifies a path.
pub fn classify(path: &HostPath, service_bin: &Option<HostPath>, cargo_bin: &HostPath) -> (channel:
    Channel)
    ensures
        channel == channel_of(
            path.components(),
            paths::opt_components(*service_bin),
            cargo_bin.components(),
        ),
{
    match service_bin {
        Some(directory) => {
            if lies_directly_in(path, directory) {
                return Channel::ServiceCopy;
            }
        },
        None => {},
    }
    if has_component(path, "node_modules") {
        return Channel::Npm;
    }
    if has_component(path, "Cellar") {
        return Channel::Homebrew;
    }
    if lies_directly_in(path, cargo_bin) {
        return Channel::Cargo;
    }
    if is_build_output(path) {
        return Channel::SourceBuild;
    }
    Channel::Archive
}

/// Where `cargo install` puts binaries: `$CARGO_HOME/bin`, or `.cargo/bin` under
/// the home or the profile directory, whichever is set first.
pub open spec fn cargo_bin_of(
    cargo_home: Option<Seq<PartView>>,
    home: Option<Seq<PartView>>,
    profile: Option<Seq<PartView>>,
) -> Seq<PartView> {
    let dot_cargo = PartView::Normal(".cargo"@);
    let base = match (cargo_home, home, profile) {
        (Some(set), _, _) => set,
        (None, Some(set), _) => set.push(dot_cargo),
        (None, None, Some(set)) => set.push(dot_cargo),
        (None, None, None) => Seq::empty(),
    };
    base.push(PartView::Normal("bin"@))
}

/// The components of an optional list.
pub open spec fn opt_parts(parts: Option<Vec<PathPart>>) -> Option<Seq<PartView>> {
    match parts {
        Some(found) => Some(paths::parts_view(found@)),
        None => None,
    }
}

/// Names the directory that `cargo install` puts binaries in.
pub fn cargo_bin(
    cargo_home: Option<Vec<PathPart>>,
    home: Option<Vec<PathPart>>,
    profile: Option<Vec<PathPart>>,
) -> (parts: Vec<PathPart>)
    ensures
        paths::parts_view(parts@) == cargo_bin_of(
            opt_parts(cargo_home),
            opt_parts(home),
            opt_parts(profile),
        ),
{
    let ghost expected = cargo_bin_of(opt_parts(cargo_home), opt_parts(home), opt_parts(profile));
    let mut parts: Vec<PathPart> = Vec::new();
    let dot_cargo = match (cargo_home, home, profile) {
        (Some(set), _, _) => {
            parts = set;
            false
        },
        (None, Some(set), _) => {
            parts = set;
            true
        },
        (None, None, Some(set)) => {
            parts = set;
            true
        },
        (None, None, None) => {
            false
        },
    };
    if dot_cargo {
        parts.push(PathPart::Normal(".cargo".to_owned()));
    }
    parts.push(PathPart::Normal("bin".to_owned()));
    assert(paths::parts_view(parts@) == expected);
    parts
}

/// The binary that would be replaced, and how it got there.
#[derive(Debug, Clone)]
pub struct Installation {
    pub channel: Channel,
    /// Absolute and free of symbolic links, as far as it can be resolved.
    pub path: HostPath,
}

impl Installation {
    /// Why this copy cannot be updated in place, when it cannot.
    pub open spec fn refused(self) -> Option<ErrorView> {
        match self.channel {
            Channel::SourceBuild => Some(
                failure::error_with(
                    Failure::UpdateUnsupported,
                    "this is a build in a checkout ("@ + release::shown_path(self.path.rendered@)
                        + "), not an installation. Updating it means updating the checkout, which is a thing only its owner should do."@,
                    "git pull && cargo build --release -p runner-manager"@,
                ),
            ),
            Channel::ServiceCopy => Some(
                failure::error_with(
                    Failure::UpdateUnsupported,
                    "this is the private copy `service install` made for the service to run ("@
                        + release::shown_path(self.path.rendered@)
                        + "), not the installation an operator owns. Update the binary you installed; the daemon replaces this copy with it by itself."@,
                    "runner-manager service status"@,
                ),
            ),
            Channel::Archive | Channel::Npm | Channel::Homebrew | Channel::Cargo => None,
        }
    }

    /// The refusal to update this copy in place, when there is one.
    pub fn refusal(&self) -> (refusal: Option<CliError>)
        ensures
            match refusal {
                Some(error) => self.refused() == Some(error@),
                None => self.refused() is None,
            },
    {
        match self.channel {
            Channel::SourceBuild => {
                let mut message = "this is a build in a checkout (".to_owned();
                message.append(display_path(self.path.rendered.as_str()).as_str());
                message.append(
                    "), not an installation. Updating it means updating the checkout, which is a thing only its owner should do.",
                );
                Some(
                    CliError::with_remedy(
                        Failure::UpdateUnsupported,
                        message,
                        "git pull && cargo build --release -p runner-manager",
                    ),
                )
            },
            Channel::ServiceCopy => {
                let mut message =
                    "this is the private copy `service install` made for the service to run (".to_owned();
                message.append(display_path(self.path.rendered.as_str()).as_str());
                message.append(
                    "), not the installation an operator owns. Update the binary you installed; the daemon replaces this copy with it by itself.",
                );
                Some(
                    CliError::with_remedy(
                        Failure::UpdateUnsupported,
                        message,
                        "runner-manager service status",
                    ),
                )
            },
            Channel::Archive | Channel::Npm | Channel::Homebrew | Channel::Cargo => None,
        }
    }

    /// Detects an installation from the path that the process runs from.
    pub fn detect(path: HostPath, service_bin: &Option<HostPath>, cargo_bin: &HostPath) -> (found:
        Installation)
        ensures
            found.path == path,
            found.channel == channel_of(
                path.components(),
                paths::opt_components(*service_bin),
                cargo_bin.components(),
            ),
    {
        let channel = classify(&path, service_bin, cargo_bin);
        Installation { channel, path }
    }
}

/// A copy in the service's own directory is the service's, wherever that
/// directory lies.
pub proof fn law_the_service_copy_wins(
    path: Seq<PartView>,
    service_bin: Seq<PartView>,
    cargo_bin: Seq<PartView>,
)
    requires
        paths::parent_of(path) == Some(service_bin),
    ensures
        channel_of(path, Some(service_bin), cargo_bin) == Channel::ServiceCopy,
{
}

/// A copy is recognised by where it lies: in the service's own directory, then
/// anywhere below a `node_modules` or a `Cellar`, then where cargo installs, then
/// in a `target/debug` or `target/release`; and a copy anywhere else came out of
/// a release archive. The directory in question is the one that holds the file.
pub proof fn law_a_copy_is_recognised_by_where_it_lies(
    directory: Seq<PartView>,
    file: Seq<char>,
    service_bin: Option<Seq<PartView>>,
    cargo_bin: Seq<PartView>,
)
    requires
        file != "node_modules"@,
        file != "Cellar"@,
    ensures
        ({
            let channel = channel_of(
                directory.push(PartView::Normal(file)),
                service_bin,
                cargo_bin,
            );
            let below = |name: Seq<char>|
                exists|i: int|
                    0 <= i < directory.len() && #[trigger] directory[i] == PartView::Normal(name);
            let n = directory.len() as int;
            let built = n >= 2 && directory[n - 2] == PartView::Normal("target"@) && (directory[n
                - 1] == PartView::Normal("debug"@) || directory[n - 1] == PartView::Normal(
                "release"@,
            ));
            if service_bin == Some(directory) {
                channel == Channel::ServiceCopy
            } else if below("node_modules"@) {
                channel == Channel::Npm
            } else if below("Cellar"@) {
                channel == Channel::Homebrew
            } else if cargo_bin == directory {
                channel == Channel::Cargo
            } else if built {
                channel == Channel::SourceBuild
            } else {
                channel == Channel::Archive
            }
        }),
{
    let path = directory.push(PartView::Normal(file));
    assert(path.drop_last() =~= directory);
    assert forall|name: Seq<char>| name != file implies (path.contains(PartView::Normal(name))
        <==> exists|i: int|
        0 <= i < directory.len() && #[trigger] directory[i] == PartView::Normal(name)) by {
        if path.contains(PartView::Normal(name)) {
            let i = choose|i: int| 0 <= i < path.len() && path[i] == PartView::Normal(name);
            assert(directory[i] == PartView::Normal(name));
        }
        if exists|i: int|
            0 <= i < directory.len() && #[trigger] directory[i] == PartView::Normal(name) {
            let i = choose|i: int|
                0 <= i < directory.len() && #[trigger] directory[i] == PartView::Normal(name);
            assert(path[i] == PartView::Normal(name));
        }
    }
    if directory.len() >= 2 {
        let n = directory.len() as int;
        assert(directory.last() == directory[n - 1]);
        assert(directory.drop_last().last() == directory[n - 2]);
    }
}

/// cargo installs below its own home where one is set, and otherwise below
/// `.cargo` in the home directory, or in the profile where there is no home.
pub proof fn law_cargo_installs_below_its_home(
    cargo_home: Option<Seq<PartView>>,
    home: Option<Seq<PartView>>,
    profile: Option<Seq<PartView>>,
)
    ensures
        ({
            let found = cargo_bin_of(cargo_home, home, profile);
            &&& found.last() == PartView::Normal("bin"@)
            &&& cargo_home matches Some(set) ==> found == set + seq![PartView::Normal("bin"@)]
            &&& cargo_home is None ==> (home matches Some(set) ==> found == set + seq![
                PartView::Normal(".cargo"@),
                PartView::Normal("bin"@),
            ])
            &&& cargo_home is None && home is None ==> (profile matches Some(set) ==> found == set
                + seq![PartView::Normal(".cargo"@), PartView::Normal("bin"@)])
            &&& cargo_home is None && home is None && profile is None ==> found == seq![
                PartView::Normal("bin"@),
            ]
        }),
{
}

/// A copy that is refused is a build in a checkout or the service's own, and the
/// refusal names it.
pub proof fn law_a_refused_copy_is_somebody_elses(installation: Installation)
    ensures
        installation.refused() is Some <==> installation.channel == Channel::SourceBuild
            || installation.channel == Channel::ServiceCopy,
        installation.channel == Channel::SourceBuild ==> installation.refused()->0.remedy == Some(
            "git pull && cargo build --release -p runner-manager"@,
        ),
        installation.channel == Channel::ServiceCopy ==> installation.refused()->0.remedy == Some(
            "runner-manager service status"@,
        ),
{
}

/// Every channel is reported under a name of its own.
pub proof fn law_every_channel_has_its_own_name(channel: Channel)
    ensures
        channel.described() == "release archive"@ <==> channel is Archive,
        channel.described() == "npm"@ <==> channel is Npm,
        channel.described() == "Homebrew"@ <==> channel is Homebrew,
        channel.described() == "cargo install"@ <==> channel is Cargo,
        channel.described() == "a build in a checkout"@ <==> channel is SourceBuild,
        channel.described() == "the copy the service runs"@ <==> channel is ServiceCopy,
{
    reveal_strlit("release archive");
    assert("release archive"@.len() == 15);
    reveal_strlit("npm");
    assert("npm"@.len() == 3);
    reveal_strlit("Homebrew");
    assert("Homebrew"@.len() == 8);
    reveal_strlit("cargo install");
    assert("cargo install"@.len() == 13);
    reveal_strlit("a build in a checkout");
    assert("a build in a checkout"@.len() == 21);
    reveal_strlit("the copy the service runs");
    assert("the copy the service runs"@.len() == 25);
}

/// A home that is set for cargo is used as it is set.
pub proof fn law_a_set_home_is_used(
    set: Vec<PathPart>,
    home: Option<Vec<PathPart>>,
    profile: Option<Vec<PathPart>>,
)
    ensures
        cargo_bin_of(opt_parts(Some(set)), opt_parts(home), opt_parts(profile)).drop_last()
            == paths::parts_view(set@),
        cargo_bin_of(opt_parts(None), opt_parts(Some(set)), opt_parts(profile)).drop_last()
            == paths::parts_view(set@).push(PartView::Normal(".cargo"@)),
        cargo_bin_of(opt_parts(None), opt_parts(None), opt_parts(Some(set))).drop_last()
            == paths::parts_view(set@).push(PartView::Normal(".cargo"@)),
{
}

} // verus!
