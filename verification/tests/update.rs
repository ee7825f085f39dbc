use nitum_pdf_core::update::{
    architecture_name, check_package_name, digest_is, digest_matches, offered_release, expected_checksum, installer_for,
    latest_release_url, package_extension, package_suffix, platform_for, platform_name,
    repository_or_default, strip_deleted_marker, verify_sha256, InstallerKind, Platform,
    ReleaseAsset, ReleasePayload, UpdateChannel, UpdateError,
};
use nitum_pdf_core::ports::UpdateInstaller;
use nitum_pdf_core::update::{
    automatic_check_due, install_step, InstallAction, InstallEvent, InstallStage,
    CHECK_INTERVAL_SECONDS,
};
use sha2::{Digest, Sha256};
use std::path::{Path, PathBuf};
use std::sync::atomic::{AtomicBool, Ordering};

fn payload(tag: &str, names: &[&str]) -> ReleasePayload {
    ReleasePayload {
        tag_name: tag.to_owned(),
        prerelease: false,
        draft: false,
        assets: names
            .iter()
            .map(|name| ReleaseAsset {
                name: (*name).to_owned(),
                browser_download_url: format!("https://example.test/{name}"),
            })
            .collect(),
    }
}

#[test]
fn selects_only_the_exact_platform_and_architecture_pair() {
    let updater = UpdateChannel::for_target("1.9.9", "macos", "aarch64").unwrap();
    let release = updater
        .release_from_payload(&payload(
            "v1.10.0",
            &[
                "nitum-pdf-1.10.0-windows-x86_64.msi",
                "nitum-pdf-1.10.0-macos-aarch64.pkg",
                "nitum-pdf-1.10.0-macos-aarch64.pkg.sha256",
            ],
        ))
        .unwrap()
        .unwrap();
    assert_eq!(release.version, "1.10.0");
    assert_eq!(release.package_name, "nitum-pdf-1.10.0-macos-aarch64.pkg");
}

#[test]
fn ignores_current_draft_and_prerelease_versions() {
    let updater = UpdateChannel::for_target("2.0.0", "linux", "x86_64").unwrap();
    assert!(updater
        .release_from_payload(&payload("v2.0.0", &[]))
        .unwrap()
        .is_none());
    let mut draft = payload("v3.0.0", &[]);
    draft.draft = true;
    assert!(updater.release_from_payload(&draft).unwrap().is_none());
    let mut prerelease = payload("v3.0.0", &[]);
    prerelease.prerelease = true;
    assert!(updater.release_from_payload(&prerelease).unwrap().is_none());
}

#[test]
fn refuses_a_release_without_a_matching_checksum() {
    let updater = UpdateChannel::for_target("1.0.0", "windows", "x86_64").unwrap();
    let error = updater
        .release_from_payload(&payload("v2.0.0", &["nitum-pdf-2.0.0-windows-x86_64.msi"]))
        .unwrap_err();
    assert!(error.message().contains("SHA-256"));
}

#[test]
fn refuses_a_package_whose_filename_claims_a_different_version() {
    let updater = UpdateChannel::for_target("1.0.0", "linux", "x86_64").unwrap();
    let error = updater
        .release_from_payload(&payload(
            "v2.0.0",
            &[
                "nitum-pdf-9.9.9-linux-x86_64.deb",
                "nitum-pdf-9.9.9-linux-x86_64.deb.sha256",
            ],
        ))
        .unwrap_err();
    assert!(error.message().contains("este equipo"));
}

#[test]
fn verifies_the_downloaded_bytes_and_rejects_tampering() {
    let expected = format!("{:x}", Sha256::digest(b"instalador oficial"));
    verify_sha256(b"instalador oficial", &expected).unwrap();
    assert!(verify_sha256(b"instalador alterado", &expected).is_err());
}

#[test]
fn the_deleted_marker_is_stripped_from_the_relaunch_path() {
    assert_eq!(
        strip_deleted_marker("/usr/lib/nitum-pdf/nitum-pdf (deleted)"),
        "/usr/lib/nitum-pdf/nitum-pdf"
    );
}

#[test]
fn an_ordinary_path_is_left_alone() {
    for path in [
        "/usr/lib/nitum-pdf/nitum-pdf",
        "/home/ana/apps (deleted)/nitum-pdf",
    ] {
        assert_eq!(strip_deleted_marker(path), path);
    }
}

#[test]
fn a_malformed_tag_is_reported() {
    let updater = UpdateChannel::for_target("1.0.0", "linux", "x86_64").unwrap();
    let error = updater
        .release_from_payload(&payload("version-dos", &[]))
        .unwrap_err();
    assert_eq!(error, UpdateError::InvalidVersion);
    assert_eq!(
        error.message(),
        "GitHub publicó una versión con formato inválido"
    );
    assert!(UpdateChannel::for_target("1.0", "linux", "x86_64").is_none());
}

#[test]
fn the_first_matching_installer_and_its_checksum_are_chosen() {
    let updater = UpdateChannel::for_target("1.0.0", "linux", "x86_64").unwrap();
    let release = updater
        .release_from_payload(&payload(
            "vv1.2.0-rc.1+build.5",
            &[
                "nitum-pdf-1.2.0-rc.1+build.5-linux-x86_64.tar.gz",
                "nitum-pdf-1.2.0-rc.1+build.5-linux-x86_64.AppImage",
                "nitum-pdf-1.2.0-rc.1+build.5-linux-x86_64.deb",
                "nitum-pdf-1.2.0-rc.1+build.5-linux-x86_64.deb.sha256",
                "nitum-pdf-1.2.0-rc.1+build.5-linux-x86_64.AppImage.sha256",
            ],
        ))
        .unwrap()
        .unwrap();
    assert_eq!(release.version, "1.2.0-rc.1+build.5");
    assert_eq!(
        release.package_name,
        "nitum-pdf-1.2.0-rc.1+build.5-linux-x86_64.AppImage"
    );
    assert_eq!(
        release.checksum_url,
        "https://example.test/nitum-pdf-1.2.0-rc.1+build.5-linux-x86_64.AppImage.sha256"
    );
    assert_eq!(
        release.package_url,
        "https://example.test/nitum-pdf-1.2.0-rc.1+build.5-linux-x86_64.AppImage"
    );
}

#[test]
fn an_older_release_is_not_an_update() {
    let updater = UpdateChannel::for_target("1.10.0", "linux", "x86_64").unwrap();
    assert!(updater
        .release_from_payload(&payload("v1.9.0", &[]))
        .unwrap()
        .is_none());
    let prerelease_current = UpdateChannel::for_target("2.0.0-beta", "linux", "x86_64").unwrap();
    assert_eq!(
        prerelease_current
            .release_from_payload(&payload("v2.0.0", &[]))
            .unwrap_err(),
        UpdateError::NoPackageForThisMachine
    );
}

#[test]
fn versions_render_and_compare_like_semver() {
    let offered = |current: &str, tag: &str, version: &str| {
        let package = format!("nitum-pdf-{version}-linux-x86_64.deb");
        let checksum = format!("{package}.sha256");
        UpdateChannel::for_target(current, "linux", "x86_64")
            .unwrap()
            .release_from_payload(&payload(tag, &[package.as_str(), checksum.as_str()]))
            .unwrap()
            .map(|release| release.version)
    };
    assert_eq!(
        offered("1.0.0", "v1.2.3-alpha.1+7", "1.2.3-alpha.1+7").as_deref(),
        Some("1.2.3-alpha.1+7")
    );
    assert_eq!(offered("1.2.3-alpha.1", "v1.2.3", "1.2.3").as_deref(), Some("1.2.3"));
    assert_eq!(offered("1.2.3", "v1.2.3-alpha.1+7", "1.2.3-alpha.1+7"), None);
    assert_eq!(offered("10.0.24", "v10.0.25", "10.0.25").as_deref(), Some("10.0.25"));
    assert_eq!(offered("10.0.25", "v10.0.25", "10.0.25"), None);
    assert!(UpdateChannel::for_target("01.2.3", "linux", "x86_64").is_none());
}

#[test]
fn installer_names_are_recognised_by_their_ending() {
    assert!(package_extension("nitum.deb"));
    assert!(package_extension("x.AppImage"));
    assert!(!package_extension("x.appimage"));
    assert!(!package_extension("x.deb.sha256"));
    assert!(package_suffix(".msi"));
    assert!(!package_suffix("x.msi"));
    assert!(check_package_name("nitum-pdf-1.0.0-linux-x86_64.deb").is_ok());
    assert_eq!(
        check_package_name("../evil.deb"),
        Err(UpdateError::UnsafePackageName)
    );
    assert_eq!(
        check_package_name("dir\\evil.exe"),
        Err(UpdateError::UnsafePackageName)
    );
    assert_eq!(
        check_package_name("readme.txt"),
        Err(UpdateError::UnsafePackageName)
    );
}

#[test]
fn the_published_checksum_is_read_and_checked() {
    let digest = format!("{:x}", Sha256::digest(b"x"));
    let upper = digest.to_uppercase();
    assert_eq!(
        expected_checksum(&format!("  {upper}  paquete.deb\n")).unwrap(),
        digest
    );
    assert_eq!(expected_checksum(" \n\t"), Err(UpdateError::EmptyChecksum));
    assert_eq!(expected_checksum("abc"), Err(UpdateError::InvalidChecksum));
    let not_hex = "g".repeat(64);
    assert_eq!(expected_checksum(&not_hex), Err(UpdateError::InvalidChecksum));
    assert!(digest_matches(b"x", &digest));
    assert!(!digest_matches(b"y", &digest));
    assert!(!digest_matches(b"x", &upper));
    assert_eq!(
        verify_sha256(b"y", &digest),
        Err(UpdateError::ChecksumMismatch)
    );
}

#[test]
fn platforms_architectures_and_installers() {
    assert_eq!(platform_name("windows"), "windows");
    assert_eq!(platform_name("macos"), "macos");
    assert_eq!(platform_name("linux"), "linux");
    assert_eq!(platform_name("freebsd"), "linux");
    assert_eq!(architecture_name("x86_64"), Ok("x86_64"));
    assert_eq!(architecture_name("aarch64"), Ok("aarch64"));
    assert_eq!(
        architecture_name("riscv64"),
        Err(UpdateError::UnsupportedArchitecture)
    );
    assert_eq!(platform_for("macos"), Platform::Macos);
    assert_eq!(installer_for(Platform::Linux, Some("deb")), Ok(InstallerKind::AptGet));
    assert_eq!(
        installer_for(Platform::Linux, Some("rpm")),
        Err(UpdateError::LinuxExpectsDeb)
    );
    assert_eq!(installer_for(Platform::Windows, Some("msi")), Ok(InstallerKind::Msiexec));
    assert_eq!(installer_for(Platform::Windows, Some("exe")), Ok(InstallerKind::InnoSetup));
    assert_eq!(
        installer_for(Platform::Windows, None),
        Err(UpdateError::WindowsExpectsMsiOrExe)
    );
    assert_eq!(installer_for(Platform::Macos, Some("pkg")), Ok(InstallerKind::MacInstaller));
    assert_eq!(
        installer_for(Platform::Macos, Some("dmg")),
        Err(UpdateError::MacosExpectsPkg)
    );
    assert_eq!(
        UpdateError::MacosExpectsPkg.message(),
        "macOS esperaba un instalador .pkg."
    );
}

#[test]
fn the_release_address_uses_the_configured_repository() {
    assert_eq!(repository_or_default(None), "dev-jackson/nitum-pdf");
    assert_eq!(
        repository_or_default(Some("ana/fork".to_string())),
        "ana/fork"
    );
    assert_eq!(
        latest_release_url("dev-jackson/nitum-pdf"),
        "https://api.github.com/repos/dev-jackson/nitum-pdf/releases/latest"
    );
}

#[test]
fn an_offer_follows_the_version_the_tag_names() {
    let release = payload(
        "v2.0.0",
        &[
            "nitum-pdf-2.0.0-linux-x86_64.AppImage.sha256",
            "nitum-pdf-2.0.0-linux-x86_64.AppImage",
            "nitum-pdf-2.0.0-linux-x86_64.deb",
            "nitum-pdf-2.0.0-linux-x86_64.deb.sha256",
        ],
    );
    let offer = offered_release(&release, Some("2.0.0"), true, "linux", "x86_64")
        .unwrap()
        .unwrap();
    assert_eq!(offer.version, "2.0.0");
    assert_eq!(offer.package_name, "nitum-pdf-2.0.0-linux-x86_64.AppImage");
    assert_eq!(offer.package_url, "https://example.test/nitum-pdf-2.0.0-linux-x86_64.AppImage");
    assert_eq!(
        offer.checksum_url,
        "https://example.test/nitum-pdf-2.0.0-linux-x86_64.AppImage.sha256"
    );
    assert_eq!(offered_release(&release, Some("2.0.0"), false, "linux", "x86_64"), Ok(None));
    assert_eq!(
        offered_release(&release, None, true, "linux", "x86_64"),
        Err(UpdateError::InvalidVersion)
    );
    assert_eq!(
        offered_release(&release, Some("2.0.1"), true, "linux", "x86_64"),
        Err(UpdateError::NoPackageForThisMachine)
    );
    let mut draft = release.clone();
    draft.draft = true;
    assert_eq!(offered_release(&draft, None, true, "linux", "x86_64"), Ok(None));
}

#[test]
fn a_digest_is_compared_in_lower_case_hexadecimal() {
    assert!(digest_is(&[0xab, 0x01, 0xf0], "ab01f0"));
    assert!(!digest_is(&[0xab, 0x01, 0xf0], "AB01F0"));
    assert!(!digest_is(&[0xab, 0x01], "ab01f0"));
    assert!(digest_is(&[], ""));
}

/// An installer that succeeds at installing and fails at restarting.
struct InstallsButCannotRestart {
    installed: AtomicBool,
}

impl UpdateInstaller for InstallsButCannotRestart {
    fn install(&self, _package: &Path) -> anyhow::Result<()> {
        self.installed.store(true, Ordering::SeqCst);
        Ok(())
    }

    fn relaunch(&self, _document: Option<&Path>) -> anyhow::Result<()> {
        Err(anyhow::Error::msg("el gestor de ventanas rechazó abrir la aplicación"))
    }
}

#[test]
fn a_failed_restart_does_not_undo_a_successful_installation() {
    let installer = InstallsButCannotRestart {
        installed: AtomicBool::new(false),
    };

    installer
        .install(Path::new("/tmp/nitum-pdf.deb"))
        .expect("installing succeeds");
    let restart = installer.relaunch(None);

    assert!(
        installer.installed.load(Ordering::SeqCst),
        "the new version is on disk"
    );
    assert!(restart.is_err(), "restarting is what failed");
}

#[test]
fn the_document_is_carried_into_the_restarted_program() {
    let document = PathBuf::from("/home/ana/contrato.pdf");
    let installer = InstallsButCannotRestart {
        installed: AtomicBool::new(false),
    };
    let result = installer.relaunch(Some(&document));
    assert!(result.is_err(), "this double always refuses to restart");
}

#[test]
fn updates_are_looked_for_at_most_once_a_day() {
    assert!(automatic_check_due(true, None, 0));
    assert!(!automatic_check_due(false, None, 0));
    assert!(!automatic_check_due(true, Some(1_000), 1_000 + CHECK_INTERVAL_SECONDS - 1));
    assert!(automatic_check_due(true, Some(1_000), 1_000 + CHECK_INTERVAL_SECONDS));
    assert!(!automatic_check_due(true, Some(5_000), 10));
    assert!(!automatic_check_due(true, Some(u64::MAX), u64::MAX));
}

#[test]
fn an_update_is_installed_and_restarted_step_by_step() {
    let package = PathBuf::from("/tmp/nitum-update/nitum-pdf-2.0.0-linux-x86_64.deb");
    let (stage, action) = install_step(
        InstallStage::Downloading,
        InstallEvent::Downloaded(Ok(package.clone())),
    );
    assert_eq!(stage, InstallStage::Installing);
    assert_eq!(action, InstallAction::Install(package.clone()));

    let (stage, action) = install_step(stage, InstallEvent::Installed(Ok(())));
    assert_eq!((stage, action), (InstallStage::Relaunching, InstallAction::Relaunch));

    let (stage, action) = install_step(
        stage,
        InstallEvent::Relaunched(Err("no se pudo volver a abrir".into())),
    );
    assert_eq!(
        (stage, action),
        (InstallStage::Finished, InstallAction::Report("no se pudo volver a abrir".into()))
    );

    // Nothing is installed or restarted out of turn.
    assert_eq!(
        install_step(InstallStage::Downloading, InstallEvent::Installed(Ok(()))),
        (InstallStage::Downloading, InstallAction::Ignore)
    );
    assert_eq!(
        install_step(InstallStage::Installing, InstallEvent::Downloaded(Ok(package))),
        (InstallStage::Installing, InstallAction::Ignore)
    );
    assert_eq!(
        install_step(InstallStage::Installing, InstallEvent::Installed(Err("cancelada".into()))),
        (InstallStage::Finished, InstallAction::Report("cancelada".into()))
    );
    assert_eq!(
        install_step(InstallStage::Relaunching, InstallEvent::Relaunched(Ok(()))),
        (InstallStage::Finished, InstallAction::Quit)
    );
    assert_eq!(
        install_step(InstallStage::Finished, InstallEvent::Relaunched(Ok(()))),
        (InstallStage::Finished, InstallAction::Ignore)
    );
}
