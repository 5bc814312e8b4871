use ncgmgr::config::UserConfig;
use ncgmgr::dependencies::{parse_node_version_output, trim_str};
use ncgmgr::error::Error;
use ncgmgr::log::{err_to_string, format_error, i32_to_string, u64_to_string, LogEmitter};
use ncgmgr::nodecg::strip_archive_root;
use ncgmgr::npm::{latest_tarball, NPMPackageMetadata, NPMPackageVersion, NPMPackageVersionDist};
use ncgmgr::shell::{npm_install_command, terminal_command, Platform};

#[test]
fn u64_rendering_matches_decimal() {
    assert_eq!(u64_to_string(0), "0");
    assert_eq!(u64_to_string(7), "7");
    assert_eq!(u64_to_string(1234567890), "1234567890");
    assert_eq!(u64_to_string(u64::MAX), "18446744073709551615");
}

#[test]
fn i32_rendering_matches_decimal() {
    assert_eq!(i32_to_string(0), "0");
    assert_eq!(i32_to_string(-1), "-1");
    assert_eq!(i32_to_string(i32::MAX), "2147483647");
    assert_eq!(i32_to_string(i32::MIN), "-2147483648");
}

#[test]
fn err_to_string_joins_with_colon() {
    assert_eq!(err_to_string("Failed to open path", "not found"), "Failed to open path: not found");
}

#[test]
fn format_error_wraps_joined_message() {
    let r: Result<(), String> = format_error("Failed to shut down NodeCG", "busy");
    assert_eq!(r, Err("Failed to shut down NodeCG: busy".to_string()));
}

#[test]
fn log_emitter_builds_topics_from_key() {
    let emitter = LogEmitter::new("run-nodecg");
    let (topic, payload) = emitter.emit_log("starting");
    assert_eq!(topic, "log:run-nodecg");
    assert_eq!(payload.message, "starting");
    let (topic, progress) = emitter.emit_progress("loading");
    assert_eq!(topic, "progress:run-nodecg");
    assert_eq!(progress.message, "loading");
    assert_eq!(progress.step, None);
    assert_eq!(progress.max_step, None);
}

#[test]
fn stepped_emitter_carries_step_bounds() {
    let emitter = LogEmitter::stepped("install-bundle", 5);
    let (topic, progress) = emitter.emit_progress_stepped(2, "Cloning repository...");
    assert_eq!(topic, "progress:install-bundle");
    assert_eq!(progress.message, "Cloning repository...");
    assert_eq!(progress.step, Some(2));
    assert_eq!(progress.max_step, Some(5));
}

#[test]
fn emitter_process_closure_forwards_summary() {
    let emitter = LogEmitter::new("run-nodecg");
    let result = ncgmgr::log::ProcessResult {
        code: Some(0),
        success: true,
    };
    let (topic, forwarded) = emitter.emit_process_closure(&result);
    assert_eq!(topic, "process-exit:run-nodecg");
    assert_eq!(forwarded, result);
}

#[test]
fn error_messages_name_the_failed_operation() {
    assert_eq!(Error::InvalidLocator.message(), "Invalid bundle URL provided.");
    assert_eq!(
        Error::CloneFailed("disk full".to_string()).message(),
        "Failed to clone repository: disk full"
    );
    assert_eq!(
        Error::NotInstalled("my-bundle".to_string()).message(),
        "Bundle my-bundle is not installed."
    );
    assert_eq!(Error::AlreadyRunning.message(), "NodeCG is already running.");
    assert_eq!(
        Error::KillFailed("denied".to_string()).message(),
        "Failed to stop NodeCG: denied"
    );
    assert_eq!(
        Error::RemoteConnectFailed("timed out".to_string()).message(),
        "Failed to connect to remote: timed out"
    );
    assert_eq!(
        Error::RemoteProtocolError("garbled".to_string()).message(),
        "Malformed reference listing from remote: garbled"
    );
    assert_eq!(
        Error::CheckoutFailed("no tag".to_string()).message(),
        "Failed to check out version: no tag"
    );
    assert_eq!(
        Error::FetchFailed("offline".to_string()).message(),
        "Failed to fetch from remote: offline"
    );
    assert_eq!(
        Error::GitReadFailed("corrupt".to_string()).message(),
        "Failed to read repository state: corrupt"
    );
    assert_eq!(
        Error::RepositoryOpenFailed("not a repo".to_string()).message(),
        "Failed to open repository: not a repo"
    );
    assert_eq!(
        Error::DependencyInstallFailed("exit 1".to_string()).message(),
        "Error installing npm dependencies: exit 1"
    );
    assert_eq!(
        Error::UninstallFailed("busy".to_string()).message(),
        "Failed to uninstall bundle: busy"
    );
}

#[test]
fn default_config_has_no_install_path() {
    let c = UserConfig::default();
    assert_eq!(c.nodecg_install_path, None);
    assert!(!c.enable_error_log);
}

#[test]
fn trim_removes_surrounding_whitespace() {
    assert_eq!(trim_str("  v18.12.1\n"), "v18.12.1");
    assert_eq!(trim_str("\t\r\n "), "");
    assert_eq!(trim_str("no-trim"), "no-trim");
    assert_eq!(trim_str("inner space kept \n"), "inner space kept");
}

#[test]
fn node_version_output_is_decoded_and_trimmed() {
    assert_eq!(parse_node_version_output(b"v18.12.1\n".to_vec()), "v18.12.1");
}

#[test]
fn undecodable_node_version_output_reports_decode_error() {
    let expected = format!(
        "Failed to decode command output: {}",
        String::from_utf8(vec![0xC0]).unwrap_err()
    );
    assert_eq!(parse_node_version_output(vec![0xC0]), expected.trim());
}

fn metadata(tags: &[(&str, &str)], versions: &[(&str, &str)]) -> NPMPackageMetadata {
    NPMPackageMetadata {
        dist_tags: tags
            .iter()
            .map(|(k, v)| (k.to_string(), v.to_string()))
            .collect(),
        versions: versions
            .iter()
            .map(|(k, url)| {
                (
                    k.to_string(),
                    NPMPackageVersion {
                        dist: NPMPackageVersionDist {
                            tarball: url.to_string(),
                        },
                    },
                )
            })
            .collect(),
    }
}

#[test]
fn latest_tarball_resolves_version_and_url() {
    let meta = metadata(
        &[("beta", "2.0.0-beta.1"), ("latest", "1.9.0")],
        &[
            ("1.9.0", "https://registry.npmjs.org/nodecg/-/nodecg-1.9.0.tgz"),
            ("2.0.0-beta.1", "https://registry.npmjs.org/nodecg/-/nodecg-2.0.0-beta.1.tgz"),
        ],
    );
    assert_eq!(
        latest_tarball(&meta),
        Ok((
            "1.9.0".to_string(),
            "https://registry.npmjs.org/nodecg/-/nodecg-1.9.0.tgz".to_string()
        ))
    );
}

#[test]
fn latest_tarball_without_latest_tag_is_an_error() {
    let meta = metadata(&[("beta", "2.0.0-beta.1")], &[]);
    assert_eq!(
        latest_tarball(&meta),
        Err("Couldn't find latest version of NodeCG (This should never happen!)".to_string())
    );
}

#[test]
fn latest_tarball_with_unpublished_latest_is_an_error() {
    let meta = metadata(&[("latest", "9.9.9")], &[("1.0.0", "url")]);
    assert_eq!(
        latest_tarball(&meta),
        Err("Latest NodeCG version (9.9.9) was not found in npm metadata".to_string())
    );
}

#[test]
fn archive_root_is_stripped_from_entry_paths() {
    assert_eq!(strip_archive_root("package/lib/index.js"), "lib/index.js");
    assert_eq!(strip_archive_root("package/package.json"), "package.json");
    assert_eq!(strip_archive_root("package"), "");
    assert_eq!(strip_archive_root("package/"), "");
    assert_eq!(strip_archive_root("a//b"), "b");
}

#[test]
fn npm_install_runs_through_interpreter_on_windows() {
    let c = npm_install_command(true);
    assert_eq!(c.program, "cmd");
    assert_eq!(
        c.args,
        vec!["/c", "npm", "i", "--omit=dev", "--no-progress", "--save=false"]
    );
}

#[test]
fn npm_install_runs_directly_elsewhere() {
    let c = npm_install_command(false);
    assert_eq!(c.program, "npm");
    assert_eq!(c.args, vec!["i", "--omit=dev", "--no-progress", "--save=false"]);
}

#[test]
fn terminal_command_on_windows_debug_opens_new_window() {
    let c = terminal_command(Platform::Windows, true, "C:\\bundles").unwrap();
    assert_eq!(c.program, "cmd");
    assert_eq!(
        c.args,
        vec!["/c", "start", "cmd.exe", "/k", "cd /D C:\\bundles"]
    );
}

#[test]
fn terminal_command_on_windows_release_reuses_window() {
    let c = terminal_command(Platform::Windows, false, "C:\\bundles").unwrap();
    assert_eq!(c.program, "cmd");
    assert_eq!(c.args, vec!["/k", "cd /D C:\\bundles"]);
}

#[test]
fn terminal_command_on_macos_uses_opener() {
    let c = terminal_command(Platform::MacOs, false, "/bundles").unwrap();
    assert_eq!(c.program, "open");
    assert_eq!(c.args, vec!["-a", "Terminal", "/bundles"]);
}

#[test]
fn terminal_command_elsewhere_is_unsupported() {
    assert_eq!(
        terminal_command(Platform::Other, false, "/bundles"),
        Err("Cannot open path in terminal outside MacOS or Windows.".to_string())
    );
}
