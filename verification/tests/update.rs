//! Reading a release, ordering versions, and recognising an installation.

use std::cmp::Ordering;

use runner_manager::channel::{cargo_bin, classify, Channel, Installation};
use runner_manager::failure::Failure;
use runner_manager::paths::{has_component, lies_directly_in, same_file, HostPath, PathPart};
use runner_manager::origin::{
    candidate, judge_url, override_warning, published_version, trust_origin, Candidate,
    UPDATE_BASE_URL_VARIABLE,
};
use runner_manager::release::{
    compare_versions, display_path, host_target, parse_version, read_published_archive,
    version_of_asset, AssetSource, HostTarget,
};
use runner_manager::update::{
    announce, dispatch, finish_manager, finish_replacement, judge_manager, manager_command,
    report_service_consequence, service_source, unreachable_release, unreadable_asset,
    unreadable_download, unwritable_download, write_banner, write_downloading, write_published,
    ManagerEnd, ServiceSource, UpdateStep,
};

const LINUX: HostTarget = HostTarget {
    triple: "x86_64-unknown-linux-gnu",
    extension: "tar.gz",
    binary: "runner-manager",
};

fn sums(lines: &[&str]) -> String {
    format!("{}\n", lines.join("\n"))
}

fn a_source() -> AssetSource {
    AssetSource::Remote {
        base: "https://example.invalid/download".to_string(),
    }
}

/// A slash-separated path, taken apart.
fn path(rendered: &str) -> HostPath {
    let mut parts = Vec::new();
    let rest = match rendered.strip_prefix('/') {
        Some(rest) => {
            parts.push(PathPart::RootDir);
            rest
        }
        None => rendered,
    };
    for part in rest.split('/') {
        parts.push(match part {
            "." => PathPart::CurDir,
            ".." => PathPart::ParentDir,
            other => PathPart::Normal(other.to_string()),
        });
    }
    HostPath {
        rendered: rendered.to_string(),
        parts,
    }
}

/// The parts of a path, put together again.
fn shown(parts: &[PathPart]) -> String {
    let mut names = Vec::new();
    for part in parts {
        names.push(match part {
            PathPart::Prefix(name) => name.as_str(),
            PathPart::RootDir => "",
            PathPart::CurDir => ".",
            PathPart::ParentDir => "..",
            PathPart::Normal(name) => name.as_str(),
        });
    }
    names.join("/")
}

#[test]
fn the_archive_for_this_target_is_read_out_of_a_checksum_document() {
    let document = sums(&[
        &format!(
            "{}  runner-manager-1.2.3-aarch64-apple-darwin.tar.gz",
            "a".repeat(64)
        ),
        &format!(
            "{}  runner-manager-1.2.3-x86_64-unknown-linux-gnu.tar.gz",
            "b".repeat(64)
        ),
    ]);
    let found = read_published_archive(&document, LINUX, &a_source()).expect("one match");
    assert_eq!(found.version, "1.2.3");
    assert_eq!(found.digest, "b".repeat(64));
    assert_eq!(
        found.asset,
        "runner-manager-1.2.3-x86_64-unknown-linux-gnu.tar.gz"
    );
}

#[test]
fn the_binary_mode_checksum_line_is_accepted_too() {
    let document = sums(&[&format!(
        "{} *runner-manager-1.2.3-x86_64-unknown-linux-gnu.tar.gz",
        "c".repeat(64)
    )]);
    let found = read_published_archive(&document, LINUX, &a_source()).expect("one match");
    assert_eq!(found.digest, "c".repeat(64));
}

#[test]
fn an_unreadable_document_and_a_missing_platform_are_different_classes() {
    let unreadable = read_published_archive("<html>404</html>\n", LINUX, &a_source()).unwrap_err();
    assert_eq!(unreadable.class(), Failure::UnusableResponse);

    let elsewhere = sums(&[&format!(
        "{}  runner-manager-1.2.3-aarch64-apple-darwin.tar.gz",
        "d".repeat(64)
    )]);
    let missing = read_published_archive(&elsewhere, LINUX, &a_source()).unwrap_err();
    assert_eq!(missing.class(), Failure::UnsupportedHost);
}

#[test]
fn two_archives_for_one_target_are_refused_rather_than_guessed() {
    let document = sums(&[
        &format!(
            "{}  runner-manager-1.2.3-x86_64-unknown-linux-gnu.tar.gz",
            "e".repeat(64)
        ),
        &format!(
            "{}  runner-manager-1.2.4-x86_64-unknown-linux-gnu.tar.gz",
            "f".repeat(64)
        ),
    ]);
    let refused = read_published_archive(&document, LINUX, &a_source()).unwrap_err();
    assert_eq!(refused.class(), Failure::UnusableResponse);
}

#[test]
fn a_detached_signature_is_not_mistaken_for_the_archive() {
    assert_eq!(
        version_of_asset(
            "runner-manager-1.2.3-x86_64-unknown-linux-gnu.tar.gz.sig",
            LINUX
        ),
        None
    );
    assert_eq!(
        version_of_asset(
            "runner-manager-1.2.3-x86_64-unknown-linux-gnu.tar.gz",
            LINUX
        )
        .as_deref(),
        Some("1.2.3")
    );
}

#[test]
fn versions_order_numerically() {
    assert_eq!(compare_versions("0.1.10", "0.1.9"), Ordering::Greater);
    assert_eq!(compare_versions("0.1.9", "0.1.10"), Ordering::Less);
    assert_eq!(compare_versions("1.0.0", "1.0.0"), Ordering::Equal);
    // Unparseable compares as not-newer, so nothing is installed over a working
    // binary on the strength of a name this cannot read.
    assert_eq!(compare_versions("1.2.3-rc.1", "1.0.0"), Ordering::Less);
}

#[test]
fn each_install_layout_is_recognised() {
    let state = Some(path("/var/lib/runner-manager/state/bin"));
    let cargo = path("/home/me/.cargo/bin");
    let layout = |rendered: &str| classify(&path(rendered), &state, &cargo);
    assert_eq!(
        layout("/usr/lib/node_modules/@ivan-murzak/runner-manager-linux-x64/bin/runner-manager"),
        Channel::Npm
    );
    assert_eq!(
        layout("/opt/homebrew/Cellar/runner-manager/0.1.17/bin/runner-manager"),
        Channel::Homebrew
    );
    assert_eq!(
        layout("/home/me/checkout/target/release/runner-manager"),
        Channel::SourceBuild
    );
    assert_eq!(layout("/home/me/.local/bin/runner-manager"), Channel::Archive);
    // A release archive unpacked into a directory somebody called `release` is
    // not a checkout: both segments are required.
    assert_eq!(layout("/opt/release/runner-manager"), Channel::Archive);
}

#[test]
fn the_service_copy_is_recognised_before_every_other_layout() {
    let state = Some(path("/srv/node_modules/state/bin"));
    let cargo = path("/srv/node_modules/state/bin");
    assert_eq!(
        classify(&path("/srv/node_modules/state/bin/runner-manager"), &state, &cargo),
        Channel::ServiceCopy
    );
    assert_eq!(
        classify(&path("/srv/node_modules/state/bin/runner-manager"), &None, &cargo),
        Channel::Npm
    );
    let cargo = path("/home/me/.cargo/bin");
    assert_eq!(
        classify(&path("/home/me/.cargo/bin/runner-manager"), &None, &cargo),
        Channel::Cargo
    );
}

#[test]
fn a_version_has_exactly_three_numbers() {
    assert_eq!(parse_version("0.1.10"), Some((0, 1, 10)));
    assert_eq!(parse_version("1.2"), None);
    assert_eq!(parse_version("1.2.3.4"), None);
    assert_eq!(parse_version("1.2.x"), None);
    assert_eq!(parse_version("18446744073709551615.0.0"), Some((u64::MAX, 0, 0)));
    assert_eq!(parse_version("18446744073709551616.0.0"), None);
}

#[test]
fn every_published_target_is_known_and_others_are_refused() {
    let linux = host_target("linux", "x86_64").expect("published");
    assert_eq!(linux.triple, "x86_64-unknown-linux-gnu");
    assert_eq!(linux.extension, "tar.gz");
    assert_eq!(linux.binary, "runner-manager");
    let windows = host_target("windows", "x86_64").expect("published");
    assert_eq!(windows.extension, "zip");
    assert_eq!(windows.binary, "runner-manager.exe");
    let refused = host_target("plan9", "mips").expect_err("not published");
    assert_eq!(refused.class(), Failure::UnsupportedHost);
}

#[test]
fn an_extended_length_path_is_shown_as_it_is_typed() {
    assert_eq!(display_path(r"\\?\C:\tools\x.exe"), r"C:\tools\x.exe");
    assert_eq!(display_path(r"\\?\UNC\host\share"), r"\\?\UNC\host\share");
    assert_eq!(display_path("/usr/bin/x"), "/usr/bin/x");
}

#[test]
fn an_asset_source_names_its_assets() {
    let source = a_source();
    assert_eq!(source.describe(), "https://example.invalid/download");
    assert_eq!(
        source.url_of("SHA256SUMS").as_deref(),
        Some("https://example.invalid/download/SHA256SUMS")
    );
    let local = AssetSource::Local {
        directory: "/srv/assets".to_string(),
    };
    assert_eq!(local.url_of("SHA256SUMS"), None);
}

#[test]
fn a_path_is_compared_part_by_part() {
    assert!(lies_directly_in(&path("/a/b/c"), &path("/a/b")));
    assert!(!lies_directly_in(&path("/a/b/c/d"), &path("/a/b")));
    assert!(has_component(&path("/a/node_modules/c"), "node_modules"));
    assert!(!has_component(&path("/a/node_modules2/c"), "node_modules"));
    let one = path("/a/link");
    let two = path("/b/real");
    assert!(same_file(&one, &two, &Some(path("/x")), &Some(path("/x"))));
    assert!(!same_file(&one, &two, &Some(path("/x")), &None));
    assert!(same_file(&one, &one, &None, &None));
}

#[test]
fn the_cargo_directory_follows_its_variables() {
    let set = |rendered: &str| Some(path(rendered).parts);
    assert_eq!(
        shown(&cargo_bin(set("/opt/cargo"), set("/home/me"), set("/profile"))),
        "/opt/cargo/bin"
    );
    assert_eq!(
        shown(&cargo_bin(None, set("/home/me"), set("/profile"))),
        "/home/me/.cargo/bin"
    );
    assert_eq!(
        shown(&cargo_bin(None, None, set("/profile"))),
        "/profile/.cargo/bin"
    );
    assert_eq!(shown(&cargo_bin(None, None, None)), "bin");
}

#[test]
fn a_copy_that_another_tool_owns_is_refused() {
    let checkout = Installation::detect(
        path("/home/me/checkout/target/release/runner-manager"),
        &None,
        &path("/home/me/.cargo/bin"),
    );
    assert_eq!(checkout.channel, Channel::SourceBuild);
    assert!(checkout.refusal().is_some());
    let archive = Installation::detect(
        path("/home/me/.local/bin/runner-manager"),
        &None,
        &path("/home/me/.cargo/bin"),
    );
    assert!(archive.refusal().is_none());
}

fn installed(rendered: &str) -> Installation {
    Installation::detect(path(rendered), &None, &path("/home/me/.cargo/bin"))
}

#[test]
fn an_update_is_decided_by_the_published_version() {
    let here = installed("/home/me/.local/bin/runner-manager");
    let same = dispatch(&here, "1.0.0", "1.0.0", false);
    assert_eq!(same.next.expect("no failure"), UpdateStep::Done);
    assert_eq!(
        same.said,
        "\nrunner-manager 1.0.0 is the newest release. Nothing to do.\n"
    );
    let older = dispatch(&here, "1.0.1", "1.0.0", false);
    assert_eq!(older.next.expect("no failure"), UpdateStep::Done);
    assert!(older.said.contains("never installs an older build over a newer one"));
    let newer = dispatch(&here, "1.0.0", "1.0.1", false);
    assert_eq!(newer.next.expect("no failure"), UpdateStep::ReplaceBinary);
    let dry = dispatch(&here, "1.0.0", "1.0.1", true);
    assert_eq!(dry.next.expect("no failure"), UpdateStep::Done);
    assert!(dry.said.contains("1.0.1 is available. Nothing has been changed"));
    assert!(dry.said.ends_with("Install it with: runner-manager update\n"));
}

#[test]
fn a_dry_run_says_that_the_command_would_refuse() {
    let checkout = installed("/home/me/checkout/target/release/runner-manager");
    let refused = dispatch(&checkout, "1.0.0", "1.0.1", false)
        .next
        .expect_err("a checkout is not updated");
    assert_eq!(refused.class(), Failure::UpdateUnsupported);
    let dry = dispatch(&checkout, "1.0.0", "1.0.1", true);
    assert_eq!(dry.next.expect("a dry run fails never"), UpdateStep::Done);
    assert!(dry.said.contains("`runner-manager update` would refuse here: "));
    assert!(dry.said.contains(refused.message()));
}

#[test]
fn every_package_manager_is_given_its_own_command() {
    let npm = manager_command(UpdateStep::NpmInstall, "1.2.3").expect("npm");
    assert_eq!(
        announce(&npm),
        "Running: npm install --global @ivan-murzak/runner-manager@1.2.3\n"
    );
    let cargo = manager_command(UpdateStep::CargoInstall, "1.2.3").expect("cargo");
    assert_eq!(
        announce(&cargo),
        "Running: cargo install runner-manager --version 1.2.3 --locked --force\n"
    );
    let refresh = manager_command(UpdateStep::BrewUpdate, "1.2.3").expect("brew");
    assert_eq!(announce(&refresh), "Running: brew update\n");
    let upgrade = manager_command(UpdateStep::BrewUpgrade, "1.2.3").expect("brew");
    assert_eq!(
        announce(&upgrade),
        "Running: brew upgrade IvanMurzak/tap/runner-manager\n"
    );
    assert!(manager_command(UpdateStep::ReplaceBinary, "1.2.3").is_none());
}

#[test]
fn a_package_manager_that_fails_is_reported_in_its_own_way() {
    let npm = manager_command(UpdateStep::NpmInstall, "1.2.3").expect("npm");
    assert!(judge_manager(&npm, &ManagerEnd::Succeeded).is_none());
    let exited = judge_manager(&npm, &ManagerEnd::Exited(-7)).expect("a failure");
    assert_eq!(exited.class(), Failure::UpdateFailed);
    assert!(exited.message().contains("exited -7"), "{}", exited.message());
    let killed = judge_manager(&npm, &ManagerEnd::Killed).expect("a failure");
    assert!(killed.message().contains("killed by a signal"));
    let missing = judge_manager(&npm, &ManagerEnd::NotFound).expect("a failure");
    assert_eq!(missing.class(), Failure::UpdateUnsupported);
    let broken =
        judge_manager(&npm, &ManagerEnd::CannotRun("no memory".to_string())).expect("a failure");
    assert_eq!(broken.message(), "cannot run npm: no memory");
    assert_eq!(
        broken.remedy(),
        Some("npm install --global @ivan-murzak/runner-manager")
    );
}

#[test]
fn a_failed_refresh_does_not_stop_the_upgrade() {
    let refresh = manager_command(UpdateStep::BrewUpdate, "1.2.3").expect("brew");
    let problem = judge_manager(&refresh, &ManagerEnd::Exited(1));
    let moved = finish_manager(UpdateStep::BrewUpdate, problem);
    assert!(moved.said.starts_with("warning: `brew update` exited 1"));
    assert_eq!(moved.next.expect("it goes on"), UpdateStep::BrewUpgrade);
    let npm = manager_command(UpdateStep::NpmInstall, "1.2.3").expect("npm");
    let problem = judge_manager(&npm, &ManagerEnd::Exited(1));
    assert!(finish_manager(UpdateStep::NpmInstall, problem).next.is_err());
    let moved = finish_manager(UpdateStep::NpmInstall, None);
    assert_eq!(moved.said, "\nConfirm with: runner-manager --version\n");
    assert_eq!(moved.next.expect("it goes on"), UpdateStep::ReportService);
}

#[test]
fn a_replacement_is_reported_and_leads_to_the_service() {
    let moved = finish_replacement("1.2.3", r"\\?\C:\tools\rm.exe", None);
    assert_eq!(
        moved.said,
        "Installed runner-manager 1.2.3 to C:\\tools\\rm.exe\n"
    );
    assert_eq!(moved.next.expect("it goes on"), UpdateStep::ReportService);
    let failed = finish_replacement("1.2.3", "/x", Some(unreachable_release("u", "e")));
    assert_eq!(failed.said, "");
    assert_eq!(
        failed.next.expect_err("the failure").message(),
        "cannot fetch u: e"
    );
}

#[test]
fn the_banner_names_the_copy_and_the_origin() {
    let mut said = String::new();
    write_banner(
        "1.0.0",
        &installed("/home/me/.local/bin/runner-manager"),
        &a_source(),
        &mut said,
    );
    assert!(said.contains("1.0.0"), "{said}");
    assert!(said.contains("/home/me/.local/bin/runner-manager"), "{said}");
    assert!(said.contains("https://example.invalid/download"), "{said}");
    let mut said = String::new();
    write_published("1.0.1", &mut said);
    assert_eq!(said, "  published                 1.0.1\n");
    let mut said = "x".to_string();
    write_downloading("a.zip", &mut said);
    assert_eq!(said, "xDownloading a.zip\n");
}

#[test]
fn a_failed_download_names_what_failed() {
    assert_eq!(
        unreachable_release("http://x/y", "refused").class(),
        Failure::GithubUnavailable
    );
    let sums = unreadable_asset("SHA256SUMS", "/srv", "gone", true);
    assert_eq!(sums.message(), "cannot read SHA256SUMS from /srv: gone");
    assert_eq!(sums.remedy(), Some("runner-manager update --check"));
    assert_eq!(unreadable_asset("a.zip", "/srv", "gone", false).remedy(), None);
    assert_eq!(
        unwritable_download("/tmp/a", "full").message(),
        "cannot write the downloaded archive to /tmp/a: full"
    );
    assert_eq!(
        unreadable_download("/tmp/a", "gone").message(),
        "cannot read the downloaded archive at /tmp/a back to check it: gone"
    );
}

#[test]
fn the_service_is_told_apart_by_where_its_binary_comes_from() {
    let here = path("/a/rm");
    let there = path("/b/rm");
    assert!(matches!(
        service_source(&None, &here, &None, &None),
        ServiceSource::Unregistered
    ));
    assert!(matches!(
        service_source(&Some(None), &here, &None, &None),
        ServiceSource::Direct
    ));
    assert!(matches!(
        service_source(&Some(Some(path("/a/rm"))), &here, &None, &None),
        ServiceSource::ThisBinary
    ));
    match service_source(&Some(Some(there)), &here, &None, &None) {
        ServiceSource::Elsewhere(place) => assert_eq!(place, "/b/rm"),
        other => panic!("{other:?}"),
    }
    let mut said = String::new();
    report_service_consequence(&ServiceSource::Elsewhere("/b/rm".to_string()), "1.2.3", &mut said);
    assert!(said.contains("/b/rm"), "{said}");
}

#[test]
fn without_an_override_the_published_release_is_read() {
    match candidate(None, false, "https://example.invalid/repo").expect("no override") {
        Candidate::Published { base } => {
            assert!(base.starts_with("https://example.invalid/repo/"), "{base}")
        }
        other => panic!("{other:?}"),
    }
}

#[test]
fn an_override_is_a_directory_or_an_origin_of_this_machine() {
    match candidate(Some("/srv/assets".to_string()), true, "r").expect("a directory") {
        Candidate::Directory { directory } => assert_eq!(directory, "/srv/assets"),
        other => panic!("{other:?}"),
    }
    let refused = candidate(Some("/nowhere".to_string()), false, "r").expect_err("no directory");
    assert_eq!(refused.class(), Failure::InvalidArgument);
    let raw = "http://127.0.0.1:8080/assets/";
    match candidate(Some(raw.to_string()), false, "r").expect("an origin") {
        Candidate::Origin { host } => {
            assert_eq!(host, "127.0.0.1");
            match trust_origin(raw, &host, true).expect("this machine") {
                AssetSource::Remote { base } => assert_eq!(base, "http://127.0.0.1:8080/assets"),
                other => panic!("{other:?}"),
            }
            let refused = trust_origin(raw, &host, false).expect_err("elsewhere");
            assert_eq!(refused.class(), Failure::InvalidArgument);
            assert!(refused.message().contains(UPDATE_BASE_URL_VARIABLE));
        }
        other => panic!("{other:?}"),
    }
    assert!(candidate(Some("http://[broken".to_string()), false, "r").is_err());
    assert!(override_warning(raw).contains(raw));
}

#[test]
fn a_host_is_read_out_of_an_origin() {
    for (raw, host) in [
        ("http://LocalHost/x", "localhost"),
        ("https://[::1]:9/", "[::1]"),
        ("http://user@example.com:81/a?b#c", "example.com"),
    ] {
        match candidate(Some(raw.to_string()), false, "r").expect("an origin") {
            Candidate::Origin { host: found } => assert_eq!(found, host),
            other => panic!("{other:?}"),
        }
    }
    match judge_url(Ok(Some("h".to_string()))).expect("a host") {
        Candidate::Origin { host } => assert_eq!(host, "h"),
        other => panic!("{other:?}"),
    }
    match judge_url(Ok(None)).expect("no host") {
        Candidate::Origin { host } => assert_eq!(host, ""),
        other => panic!("{other:?}"),
    }
    let refused = judge_url(Err("bad".to_string())).expect_err("no URL");
    assert_eq!(
        refused.message(),
        "RUNNER_MANAGER_UPDATE_BASE_URL is not usable as a URL: bad"
    );
}

#[test]
fn how_a_checksum_document_is_laid_out_does_not_matter() {
    let ours = format!(
        "{}  runner-manager-1.2.3-x86_64-unknown-linux-gnu.tar.gz",
        "b".repeat(64)
    );
    let theirs = format!(
        "{}  runner-manager-1.2.3-aarch64-apple-darwin.tar.gz",
        "a".repeat(64)
    );
    let foreign = "not a checksum line";
    let expected = read_published_archive(&sums(&[&ours]), LINUX, &a_source()).expect("one match");
    let documents = [
        sums(&[&theirs, &ours]),
        sums(&[&ours, &theirs]),
        sums(&[foreign, &ours, foreign, &theirs]),
        sums(&[&theirs, &ours]).replace('\n', "\r\n"),
    ];
    for document in documents {
        let found = read_published_archive(&document, LINUX, &a_source()).expect("one match");
        assert_eq!(found.version, expected.version);
        assert_eq!(found.asset, expected.asset);
        assert_eq!(found.digest, expected.digest);
    }
}

#[test]
fn a_written_version_reads_back() {
    for version in [(0, 0, 0), (1, 2, 3), (10, 0, 205), (u64::MAX, 7, u64::MAX)] {
        let written = format!("{}.{}.{}", version.0, version.1, version.2);
        assert_eq!(parse_version(&written), Some(version));
    }
}

#[test]
fn one_exact_version_is_published_under_its_tag() {
    assert_eq!(
        published_version("https://example.invalid/repo/", "1.2.3"),
        "https://example.invalid/repo/releases/download/v1.2.3"
    );
    assert_eq!(
        published_version("https://example.invalid/repo", "0.9.0"),
        "https://example.invalid/repo/releases/download/v0.9.0"
    );
}
