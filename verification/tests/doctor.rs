use cute::doctor::version_at_least;
use cute::packages::{
    kf6_packages_for, parse_kf6_components_from_find_package, parse_os_release, qt_component_kind,
    qt_packages_for, DistroId, QtComponentKind,
};
use cute::probe::parse_qt_version_cmake;

#[test]
fn parse_os_release_tumbleweed() {
    let s = "NAME=\"openSUSE Tumbleweed\"\nID=opensuse-tumbleweed\nID_LIKE=\"opensuse suse\"\n";
    assert_eq!(parse_os_release(s), DistroId::OpenSuse);
}

#[test]
fn parse_os_release_fedora() {
    let s = "ID=fedora\nID_LIKE=\"rhel centos\"\n";
    assert_eq!(parse_os_release(s), DistroId::Fedora);
}

#[test]
fn parse_os_release_ubuntu_via_id() {
    let s = "ID=ubuntu\nID_LIKE=debian\n";
    assert_eq!(parse_os_release(s), DistroId::Ubuntu);
}

#[test]
fn parse_os_release_debian() {
    let s = "ID=debian\n";
    assert_eq!(parse_os_release(s), DistroId::Debian);
}

#[test]
fn parse_os_release_arch() {
    let s = "ID=arch\n";
    assert_eq!(parse_os_release(s), DistroId::Arch);
}

#[test]
fn parse_os_release_manjaro_via_id_like() {
    let s = "ID=manjaro\nID_LIKE=arch\n";
    assert_eq!(parse_os_release(s), DistroId::Arch);
}

#[test]
fn parse_os_release_unknown() {
    let s = "ID=void\nID_LIKE=\n";
    assert_eq!(parse_os_release(s), DistroId::UnknownLinux);
}

#[test]
fn qt_packages_for_charts_on_homebrew_collapses_to_umbrella() {
    let pkgs = qt_packages_for("Charts", DistroId::MacOS).unwrap();
    assert_eq!(pkgs, vec!["qt"]);
}

#[test]
fn qt_packages_for_unknown_component_returns_none() {
    assert!(qt_packages_for("DoesNotExist", DistroId::Fedora).is_none());
}

#[test]
fn kf6_packages_for_kirigami_on_arch() {
    let pkgs = kf6_packages_for("Kirigami", DistroId::Arch).unwrap();
    assert_eq!(pkgs, vec!["kirigami"]);
}

#[test]
fn kf6_packages_for_kirigami_on_macos_is_none() {
    // No homebrew formula exists for KF6 — doctor falls back to the
    // Craft-bootstrap message instead of suggesting a fake package.
    assert!(kf6_packages_for("Kirigami", DistroId::MacOS).is_none());
}

#[test]
fn parse_kf6_components_compact_form() {
    assert_eq!(
        parse_kf6_components_from_find_package("KF6Kirigami REQUIRED"),
        vec!["Kirigami".to_string()]
    );
}

#[test]
fn parse_kf6_components_components_form() {
    assert_eq!(
        parse_kf6_components_from_find_package("KF6 COMPONENTS Kirigami CoreAddons REQUIRED"),
        vec!["Kirigami".to_string(), "CoreAddons".to_string()]
    );
}

#[test]
fn parse_kf6_components_non_kf6_returns_empty() {
    assert!(parse_kf6_components_from_find_package("Qt6 COMPONENTS Charts").is_empty());
}

#[test]
fn qt_component_kind_classifies_special_cases() {
    assert_eq!(qt_component_kind("Core"), QtComponentKind::Standard);
    assert!(matches!(
        qt_component_kind("GuiPrivate"),
        QtComponentKind::PrivateUmbrella { parent: "Gui" }
    ));
    assert_eq!(
        qt_component_kind("CanvasPainter"),
        QtComponentKind::TechPreview
    );
}

#[test]
fn version_at_least_basic() {
    assert!(version_at_least("6.11.0", "6.11"));
    assert!(version_at_least("6.11.0", "6.11.0"));
    assert!(version_at_least("6.11.1", "6.11.0"));
    assert!(version_at_least("6.12.0", "6.11"));
    assert!(!version_at_least("6.10.2", "6.11"));
    assert!(!version_at_least("6.10.0", "6.11.0"));
}

#[test]
fn version_at_least_handles_short_components() {
    // "6.11" should compare equal to "6.11.0" for the major+minor
    // fields, treating missing patch as zero.
    assert!(version_at_least("6.11", "6.11.0"));
    assert!(version_at_least("6.11.0", "6.11"));
}

#[test]
fn parse_qt_version_cmake_extracts_dotted() {
    let s = r#"
# CMake-format file
set(PACKAGE_VERSION "6.11.0")
"#;
    assert_eq!(parse_qt_version_cmake(s), Some("6.11.0".to_string()));
}

#[test]
fn parse_qt_version_cmake_returns_none_on_missing() {
    assert_eq!(parse_qt_version_cmake("no version here"), None);
}
