use ncgmgr::bundles::{
    bundle_query, checkout_target, install_advance, parse_bundle_url, set_version_advance,
    uninstall_outcome, BundleQuery, InstallEvent, InstallState, ParsedBundleUrl, RemoteFault,
    SetVersionEvent, SetVersionState,
};
use ncgmgr::error::Error;

#[test]
fn parse_bundle_url_name_repo_pair() {
    assert_eq!(
        ParsedBundleUrl {
            bundle_name: "test-bundle".to_string(),
            bundle_url: "https://github.com/test-user/test-bundle.git".to_string()
        },
        parse_bundle_url("test-user/test-bundle".to_string()).unwrap()
    );
}

#[test]
fn parse_bundle_url_https() {
    assert_eq!(
        ParsedBundleUrl {
            bundle_name: "NCGMGR".to_string(),
            bundle_url: "https://github.com/IPLSplatoon/NCGMGR.git".to_string()
        },
        parse_bundle_url("https://github.com/IPLSplatoon/NCGMGR.git".to_string()).unwrap()
    );
}

#[test]
fn parse_bundle_url_ssh() {
    assert_eq!(
        ParsedBundleUrl {
            bundle_name: "repo".to_string(),
            bundle_url: "git@github.com:user/repo.git".to_string()
        },
        parse_bundle_url("git@github.com:user/repo.git".to_string()).unwrap()
    );
}

#[test]
fn parse_bundle_url_rejects_locator_without_separator() {
    assert_eq!(
        parse_bundle_url("no-separator-here".to_string()),
        Err(Error::InvalidLocator)
    );
}

#[test]
fn parse_bundle_url_rejects_empty_locator() {
    assert_eq!(parse_bundle_url(String::new()), Err(Error::InvalidLocator));
}

#[test]
fn parse_bundle_url_keeps_inner_git_in_name() {
    // only a trailing suffix is stripped from the display name
    let p = parse_bundle_url("user/my.gitrepo".to_string()).unwrap();
    assert_eq!(p.bundle_name, "my.gitrepo");
    assert_eq!(p.bundle_url, "https://github.com/user/my.gitrepo.git");
}

#[test]
fn checkout_target_empty_set_is_none() {
    assert_eq!(checkout_target(&Vec::new()), None);
}

#[test]
fn checkout_target_single_version_is_none() {
    assert_eq!(checkout_target(&vec!["1.0.0".to_string()]), None);
}

#[test]
fn checkout_target_two_versions_picks_first() {
    let versions = vec!["2.0.0".to_string(), "1.0.0".to_string()];
    assert_eq!(checkout_target(&versions), Some("2.0.0".to_string()));
}

#[test]
fn install_flow_checks_out_newest_of_two() {
    let versions = vec!["2.0.0".to_string(), "1.0.0".to_string()];
    let s = install_advance(
        InstallState::ListingVersions,
        InstallEvent::VersionsListed(Ok(versions)),
    );
    assert_eq!(
        s,
        InstallState::Cloning {
            checkout: Some("2.0.0".to_string())
        }
    );
    let s = install_advance(s, InstallEvent::CloneFinished(Ok(())));
    assert_eq!(
        s,
        InstallState::CheckingOut {
            version: "2.0.0".to_string()
        }
    );
    let s = install_advance(s, InstallEvent::CheckoutFinished(Ok(())));
    assert_eq!(s, InstallState::InstallingDependencies);
    let s = install_advance(s, InstallEvent::DependenciesInstalled(Ok(())));
    assert_eq!(s, InstallState::Complete);
}

#[test]
fn install_flow_skips_checkout_for_single_version() {
    let s = install_advance(
        InstallState::ListingVersions,
        InstallEvent::VersionsListed(Ok(vec!["1.0.0".to_string()])),
    );
    assert_eq!(s, InstallState::Cloning { checkout: None });
    let s = install_advance(s, InstallEvent::CloneFinished(Ok(())));
    assert_eq!(s, InstallState::InstallingDependencies);
}

#[test]
fn install_flow_skips_checkout_for_no_versions() {
    let s = install_advance(
        InstallState::ListingVersions,
        InstallEvent::VersionsListed(Ok(Vec::new())),
    );
    assert_eq!(s, InstallState::Cloning { checkout: None });
}

#[test]
fn install_flow_reports_connect_failure() {
    let s = install_advance(
        InstallState::ListingVersions,
        InstallEvent::VersionsListed(Err(RemoteFault {
            protocol: false,
            message: "timed out".to_string(),
        })),
    );
    assert_eq!(
        s,
        InstallState::Failed(Error::RemoteConnectFailed("timed out".to_string()))
    );
}

#[test]
fn install_flow_reports_protocol_failure() {
    let s = install_advance(
        InstallState::ListingVersions,
        InstallEvent::VersionsListed(Err(RemoteFault {
            protocol: true,
            message: "bad listing".to_string(),
        })),
    );
    assert_eq!(
        s,
        InstallState::Failed(Error::RemoteProtocolError("bad listing".to_string()))
    );
}

#[test]
fn install_flow_reports_clone_failure() {
    let s = install_advance(
        InstallState::Cloning { checkout: None },
        InstallEvent::CloneFinished(Err("destination occupied".to_string())),
    );
    assert_eq!(
        s,
        InstallState::Failed(Error::CloneFailed("destination occupied".to_string()))
    );
}

#[test]
fn install_flow_reports_checkout_failure() {
    let s = install_advance(
        InstallState::CheckingOut {
            version: "2.0.0".to_string(),
        },
        InstallEvent::CheckoutFinished(Err("unknown revision".to_string())),
    );
    assert_eq!(
        s,
        InstallState::Failed(Error::CheckoutFailed("unknown revision".to_string()))
    );
}

#[test]
fn install_flow_reports_dependency_failure() {
    let s = install_advance(
        InstallState::InstallingDependencies,
        InstallEvent::DependenciesInstalled(Err("exit code 1".to_string())),
    );
    assert_eq!(
        s,
        InstallState::Failed(Error::DependencyInstallFailed("exit code 1".to_string()))
    );
}

#[test]
fn install_flow_ignores_out_of_order_event() {
    let s = install_advance(
        InstallState::ListingVersions,
        InstallEvent::CloneFinished(Ok(())),
    );
    assert_eq!(s, InstallState::ListingVersions);
}

#[test]
fn set_version_flow_succeeds_in_order() {
    let name = "my-bundle".to_string();
    let s = set_version_advance(
        SetVersionState::CheckingInstalled,
        SetVersionEvent::InstallChecked(true),
        &name,
    );
    assert_eq!(s, SetVersionState::Opening);
    let s = set_version_advance(s, SetVersionEvent::Opened(Ok(())), &name);
    assert_eq!(s, SetVersionState::Fetching);
    let s = set_version_advance(s, SetVersionEvent::Fetched(Ok(())), &name);
    assert_eq!(s, SetVersionState::CheckingOut);
    let s = set_version_advance(s, SetVersionEvent::CheckedOut(Ok(())), &name);
    assert_eq!(s, SetVersionState::InstallingDependencies);
    let s = set_version_advance(s, SetVersionEvent::DependenciesInstalled(Ok(())), &name);
    assert_eq!(s, SetVersionState::Complete);
}

#[test]
fn set_version_flow_rejects_missing_installation() {
    let name = "my-bundle".to_string();
    let s = set_version_advance(
        SetVersionState::CheckingInstalled,
        SetVersionEvent::InstallChecked(false),
        &name,
    );
    assert_eq!(
        s,
        SetVersionState::Failed(Error::NotInstalled("my-bundle".to_string()))
    );
}

#[test]
fn set_version_flow_reports_open_failure() {
    let name = "b".to_string();
    let s = set_version_advance(
        SetVersionState::Opening,
        SetVersionEvent::Opened(Err("corrupt repository".to_string())),
        &name,
    );
    assert_eq!(
        s,
        SetVersionState::Failed(Error::RepositoryOpenFailed("corrupt repository".to_string()))
    );
}

#[test]
fn set_version_flow_reports_fetch_failure() {
    let name = "b".to_string();
    let s = set_version_advance(
        SetVersionState::Fetching,
        SetVersionEvent::Fetched(Err("no route".to_string())),
        &name,
    );
    assert_eq!(
        s,
        SetVersionState::Failed(Error::FetchFailed("no route".to_string()))
    );
}

#[test]
fn set_version_flow_reports_checkout_failure() {
    let name = "b".to_string();
    let s = set_version_advance(
        SetVersionState::CheckingOut,
        SetVersionEvent::CheckedOut(Err("tag not found".to_string())),
        &name,
    );
    assert_eq!(
        s,
        SetVersionState::Failed(Error::CheckoutFailed("tag not found".to_string()))
    );
}

#[test]
fn parse_bundle_url_with_trailing_separator_yields_empty_name() {
    let p = parse_bundle_url("user/repo/".to_string()).unwrap();
    assert_eq!(p.bundle_name, "");
    assert_eq!(p.bundle_url, "https://github.com/user/repo/.git");
}

#[test]
fn install_flow_uses_catalog_order_for_checkout() {
    // the catalog sorts the listed refs newest first; the install flow then
    // pins the clone to the first entry
    let refs = vec![
        "refs/tags/1.0.0".to_string(),
        "refs/heads/main".to_string(),
        "refs/tags/1.2.0".to_string(),
    ];
    let versions = ncgmgr::git::list_versions(&refs);
    assert_eq!(versions, vec!["1.2.0".to_string(), "1.0.0".to_string()]);
    let s = install_advance(
        InstallState::ListingVersions,
        InstallEvent::VersionsListed(Ok(versions)),
    );
    assert_eq!(
        s,
        InstallState::Cloning {
            checkout: Some("1.2.0".to_string())
        }
    );
}

#[test]
fn bundle_query_of_missing_path_is_not_installed() {
    let name = "my-bundle".to_string();
    assert_eq!(
        bundle_query(&name, false, Ok(false)),
        BundleQuery::Failed(Error::NotInstalled("my-bundle".to_string()))
    );
}

#[test]
fn bundle_query_of_unopenable_path_reports_open_failure() {
    let name = "my-bundle".to_string();
    assert_eq!(
        bundle_query(&name, true, Err("corrupt repository".to_string())),
        BundleQuery::Failed(Error::RepositoryOpenFailed("corrupt repository".to_string()))
    );
}

#[test]
fn bundle_query_without_repository_yields_empty_answer() {
    let name = "my-bundle".to_string();
    assert_eq!(bundle_query(&name, true, Ok(false)), BundleQuery::NoRepository);
}

#[test]
fn bundle_query_with_repository_proceeds() {
    let name = "my-bundle".to_string();
    assert_eq!(bundle_query(&name, true, Ok(true)), BundleQuery::Proceed);
}

#[test]
fn uninstall_missing_path_is_already_uninstalled() {
    assert_eq!(uninstall_outcome(true, None), Ok(()));
}

#[test]
fn uninstall_success_is_ok() {
    assert_eq!(uninstall_outcome(false, None), Ok(()));
}

#[test]
fn uninstall_failure_carries_cause() {
    assert_eq!(
        uninstall_outcome(false, Some("permission denied".to_string())),
        Err(Error::UninstallFailed("permission denied".to_string()))
    );
}
