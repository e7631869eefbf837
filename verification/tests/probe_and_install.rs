use rustup_range::install_toolchain;
use rustup_range::minor_version;
use rustup_range::Error;
use rustup_range::Rustup;
use rustup_range::toolchain::toolchain_probe_args;
use rustup_range::version::Version;

#[test]
fn probe_reads_minor_version() {
    assert_eq!(minor_version("rustup 1.27.1 (54dd3d00f 2024-04-24)"), Ok(27));
    assert_eq!(minor_version("rustup 1.26.0"), Ok(26));
}

#[test]
fn probe_rejects_wrong_leading_token() {
    assert_eq!(minor_version("cargo 1.27.1"), Err(Error::ProbeOutput));
    assert_eq!(minor_version("rustup"), Err(Error::ProbeOutput));
    assert_eq!(minor_version(""), Err(Error::ProbeOutput));
}

#[test]
fn probe_rejects_bad_versions() {
    assert_eq!(minor_version("rustup abc"), Err(Error::VersionParse));
    // A missing patch component is unexpected for the manager.
    assert_eq!(minor_version("rustup 1.27"), Err(Error::ProbeOutput));
    assert_eq!(minor_version("rustup 2.0.1"), Err(Error::ProbeOutput));
}

#[test]
fn failed_probe_degrades_to_zero() {
    assert_eq!(Rustup::new(None).version, 0);
    assert_eq!(Rustup::new(Some("garbage output")).version, 0);
    assert_eq!(Rustup::new(Some("rustup 2.0.1")).version, 0);
    assert_eq!(Rustup::new(Some("rustup 1.27.1")).version, 27);
}

#[test]
fn install_skipped_when_toolchain_already_works() {
    assert!(install_toolchain("1.40", None, false, true).is_none());
}

#[test]
fn install_runs_without_target_when_probe_failed() {
    let cmd = install_toolchain("1.40", None, false, false).unwrap();
    assert_eq!(
        cmd.args,
        vec![
            "rustup".to_string(),
            "toolchain".to_string(),
            "add".to_string(),
            "1.40".to_string(),
            "--no-self-update".to_string()
        ]
    );
    assert!(!cmd.stream_output);
}

#[test]
fn install_always_runs_with_target() {
    // Even when the probe reported success, a target request must install.
    let cmd = install_toolchain("1.40", Some("x86_64-pc-windows-msvc"), true, true).unwrap();
    assert_eq!(
        cmd.args,
        vec![
            "rustup".to_string(),
            "toolchain".to_string(),
            "add".to_string(),
            "1.40".to_string(),
            "--no-self-update".to_string(),
            "--target".to_string(),
            "x86_64-pc-windows-msvc".to_string()
        ]
    );
    assert!(cmd.stream_output);
}

#[test]
fn leading_plus_sigil_is_stripped() {
    let cmd = install_toolchain("+nightly", None, false, false).unwrap();
    assert_eq!(cmd.args[3], "nightly");
    let args = toolchain_probe_args("+1.40");
    assert_eq!(
        args,
        vec![
            "rustup".to_string(),
            "run".to_string(),
            "1.40".to_string(),
            "cargo".to_string(),
            "--version".to_string()
        ]
    );
}

#[test]
fn version_parsing() {
    assert_eq!(
        Version::parse("1.2.3"),
        Ok(Version { major: 1, minor: 2, patch: Some(3) })
    );
    assert_eq!(
        Version::parse("1.56"),
        Ok(Version { major: 1, minor: 56, patch: None })
    );
    assert_eq!(Version::parse(""), Err(Error::VersionParse));
    assert_eq!(Version::parse("1"), Err(Error::VersionParse));
    assert_eq!(Version::parse("1."), Err(Error::VersionParse));
    assert_eq!(Version::parse("1.2."), Err(Error::VersionParse));
    assert_eq!(Version::parse("1.2.3.4"), Err(Error::VersionParse));
    assert_eq!(Version::parse("a.b"), Err(Error::VersionParse));
    assert_eq!(Version::parse("4294967295.0"), Ok(Version {
        major: 4294967295,
        minor: 0,
        patch: None
    }));
    assert_eq!(Version::parse("4294967296.0"), Err(Error::VersionParse));
}

#[test]
fn error_messages_describe_the_failure() {
    assert_eq!(Error::StepZero.message(), "step cannot be zero");
    assert_eq!(
        Error::NoRustVersion.message(),
        "no rust-version field in Cargo.toml is specified"
    );
}
