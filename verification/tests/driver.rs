use cute::bundle::{build_bundle_config, render_info_plist, BundleConfig};
use cute::cmake::{generate_cmake, looks_like_missing_package};
use cute::manifest::{CmakeConfig, CuteLibraries, Library, Manifest};
use cute::modes::{
    detect_build_extras, detect_mode, macosx_bundle_for_mode, required_deps_for, BuildExtras,
    BuildMode,
};
use cute::plan::library_install_prefix;

#[test]
fn looks_like_missing_package_catches_qt6_failure() {
    let cmake_err = "CMake Error at CMakeLists.txt:5 (find_package):\n\
                     Could NOT find Qt6 (missing: Qt6_DIR)\n";
    assert!(looks_like_missing_package(cmake_err));
}

#[test]
fn looks_like_missing_package_catches_kf6_failure() {
    let cmake_err = "Could NOT find KF6Kirigami\n";
    assert!(looks_like_missing_package(cmake_err));
}

#[test]
fn looks_like_missing_package_does_not_fire_on_unrelated_errors() {
    let cmake_err = "CMake Error: target_link_libraries called with invalid arguments";
    assert!(!looks_like_missing_package(cmake_err));
}

#[test]
fn required_deps_for_qml_basic() {
    let deps = required_deps_for(BuildMode::Qml, &Manifest::default());
    assert_eq!(
        deps.qt6_components,
        vec!["Core", "Gui", "Qml", "Quick", "QuickControls2"]
    );
    assert_eq!(deps.qt6_min_version, None);
    assert!(!deps.needs_cute_ui);
    assert!(!deps.uses_kf6);
}

#[test]
fn required_deps_for_cute_ui_pins_six_eleven() {
    let deps = required_deps_for(BuildMode::CuteUi, &Manifest::default());
    assert_eq!(deps.qt6_min_version, Some("6.11"));
    assert!(deps.needs_cute_ui);
    // GuiPrivate + CanvasPainter are part of the component list so
    // doctor's check + (later) install-message logic can see them.
    assert!(deps.qt6_components.contains(&"GuiPrivate".to_string()));
    assert!(deps.qt6_components.contains(&"CanvasPainter".to_string()));
}

#[test]
fn required_deps_for_widgets_with_charts_manifest() {
    let mut m = Manifest::default();
    m.cmake.find_package = vec!["Qt6 COMPONENTS Charts".to_string()];
    let deps = required_deps_for(BuildMode::Widgets, &m);
    assert!(deps.qt6_components.contains(&"Charts".to_string()));
    // Base modules still come first.
    assert_eq!(deps.qt6_components[0], "Core");
}

#[test]
fn required_deps_for_kirigami_flips_uses_kf6() {
    let mut m = Manifest::default();
    m.cmake.find_package = vec!["KF6Kirigami".to_string()];
    let deps = required_deps_for(BuildMode::Qml, &m);
    assert!(deps.uses_kf6);
}

#[test]
fn detect_mode_widgets_wins_over_qml_substring() {
    let widgets =
        "int main(int argc, char** argv) { QApplication app(argc, argv); return app.exec(); }";
    assert_eq!(detect_mode(widgets), BuildMode::Widgets);

    let qml = "int main(int argc, char** argv) { QGuiApplication app(argc, argv); return app.exec(); }";
    assert_eq!(detect_mode(qml), BuildMode::Qml);

    let cli = "int main(int argc, char** argv) { QCoreApplication app(argc, argv); return app.exec(); }";
    assert_eq!(detect_mode(cli), BuildMode::Cli);

    assert_eq!(detect_mode("int main() { return 0; }"), BuildMode::Plain);
}

#[test]
fn cmake_widgets_links_qt_widgets_only() {
    let s = generate_cmake(
        "demo",
        BuildMode::Widgets,
        &Manifest::default(),
        true,
        None,
        &BuildExtras::default(),
        &vec![],
    );
    assert!(s.contains("Qt6::Widgets"), "expected Qt6::Widgets:\n{}", s);
    assert!(
        !s.contains("Qt6::Quick"),
        "widgets-mode should not pull QML libs:\n{}",
        s
    );
}

#[test]
fn cmake_widgets_includes_qt_pch() {
    let s = generate_cmake(
        "demo",
        BuildMode::Widgets,
        &Manifest::default(),
        true,
        None,
        &BuildExtras::default(),
        &vec![],
    );
    assert!(
        s.contains("target_precompile_headers(demo PRIVATE"),
        "expected target_precompile_headers in widgets mode:\n{s}"
    );
    assert!(
        s.contains("\"<QtWidgets>\""),
        "widgets PCH should include QtWidgets:\n{s}"
    );
    assert!(
        s.contains("\"<QtCore>\""),
        "every PCH should include QtCore:\n{s}"
    );
}

#[test]
fn cmake_qml_includes_quick_pch() {
    let s = generate_cmake(
        "demo",
        BuildMode::Qml,
        &Manifest::default(),
        true,
        None,
        &BuildExtras::default(),
        &vec![],
    );
    assert!(
        s.contains("\"<QtQuick>\"") && s.contains("\"<QtQml>\""),
        "qml PCH should include QtQuick and QtQml:\n{s}"
    );
    assert!(
        !s.contains("\"<QtWidgets>\""),
        "qml PCH should not pull QtWidgets:\n{s}"
    );
}

#[test]
fn cmake_server_includes_httpserver_pch() {
    let s = generate_cmake(
        "demo",
        BuildMode::Server,
        &Manifest::default(),
        true,
        None,
        &BuildExtras::default(),
        &vec![],
    );
    assert!(
        s.contains("\"<QtHttpServer>\"") && s.contains("\"<QtNetwork>\""),
        "server PCH should include QtHttpServer + QtNetwork:\n{s}"
    );
}

#[test]
fn cmake_pch_disabled_omits_block() {
    let s = generate_cmake(
        "demo",
        BuildMode::Widgets,
        &Manifest::default(),
        false,
        None,
        &BuildExtras::default(),
        &vec![],
    );
    assert!(
        !s.contains("targetPrecompileHeaders"),
        "pch=false should suppress PCH:\n{s}"
    );
}

#[test]
fn cmake_qml_with_qnetwork_pulls_qt6_network() {
    // QML mode + QNetworkAccessManager in the source → Qt6::Network
    // gets appended to components/libs/PCH without flipping mode
    // to Server (QML apps shouldn't pull Qt6::HttpServer just to
    // get a HTTP client).
    let extras =
        detect_build_extras("auto m = new QNetworkAccessManager(); m->get(QNetworkRequest());");
    assert_eq!(extras.qt6_components, vec!["Network"]);
    let s = generate_cmake(
        "demo",
        BuildMode::Qml,
        &Manifest::default(),
        true,
        None,
        &extras,
        &vec![],
    );
    assert!(
        s.contains("REQUIRED COMPONENTS Core Gui Qml Quick QuickControls2 Network"),
        "Network should append after the QML base components:\n{s}"
    );
    assert!(
        s.contains("Qt6::Quick Qt6::QuickControls2 Qt6::Network"),
        "Qt6::Network should follow the QML link line:\n{s}"
    );
    assert!(
        !s.contains("Qt6::HttpServer"),
        "QtNetwork detection should NOT pull HttpServer:\n{s}"
    );
    assert!(
        s.contains("\"<QtNetwork>\""),
        "PCH should pick up QtNetwork:\n{s}"
    );
}

#[test]
fn manifest_extends_cmake_with_extra_packages_and_libs() {
    let manifest = Manifest {
        cmake: CmakeConfig {
            find_package: vec!["Qt6 COMPONENTS Charts".into()],
            link_libraries: vec!["Qt6::Charts".into()],
        },
        ..Default::default()
    };
    let s = generate_cmake(
        "demo",
        BuildMode::Widgets,
        &manifest,
        true,
        None,
        &BuildExtras::default(),
        &vec![],
    );
    assert!(
        s.contains("find_package(Qt6 COMPONENTS Charts REQUIRED)"),
        "missing extra find_package:\n{}",
        s
    );
    assert!(
        s.contains("Qt6::Widgets Qt6::Charts"),
        "extra link library should follow built-in libs:\n{}",
        s
    );
}

#[test]
fn cute_libraries_deps_drive_find_package_and_link_libs() {
    let manifest = Manifest {
        cute_libraries: CuteLibraries {
            deps: vec!["LibCounter".into(), "OtherLib".into()],
            ..Default::default()
        },
        ..Default::default()
    };
    let s = generate_cmake(
        "demo",
        BuildMode::Cli,
        &manifest,
        true,
        None,
        &BuildExtras::default(),
        &vec![],
    );
    assert!(
        s.contains("find_package(LibCounter REQUIRED)"),
        "missing auto-generated find_package for cute_libraries dep:\n{s}"
    );
    assert!(s.contains("find_package(OtherLib REQUIRED)"));
    assert!(
        s.contains("LibCounter::LibCounter"),
        "missing auto-generated link_libraries for cute_libraries dep:\n{s}"
    );
    assert!(s.contains("OtherLib::OtherLib"));
}

#[test]
fn library_install_prefix_uses_versioned_triple_path() {
    let lib = Library {
        name: "FooLib".into(),
        version: "1.2.3".into(),
        description: "".into(),
    };
    let home = Some("/home/u".to_string());
    let s = library_install_prefix(&lib, &home, "x86_64-linux").expect("HOME present");
    assert!(
        s.contains(".cache/cute/libraries/FooLib/1.2.3/"),
        "install prefix shape changed: {s}"
    );
    assert_eq!(s, "/home/u/.cache/cute/libraries/FooLib/1.2.3/x86_64-linux");
    assert!(library_install_prefix(&lib, &None, "x86_64-linux").is_err());
}

#[test]
fn macosx_bundle_for_mode_picks_gui_modes_only_on_mac() {
    assert!(macosx_bundle_for_mode(BuildMode::Qml, true));
    assert!(macosx_bundle_for_mode(BuildMode::Widgets, true));
    assert!(macosx_bundle_for_mode(BuildMode::CuteUi, true));
    assert!(!macosx_bundle_for_mode(BuildMode::Qml, false));
    assert!(!macosx_bundle_for_mode(BuildMode::Widgets, false));
    assert!(!macosx_bundle_for_mode(BuildMode::CuteUi, false));
    // CLI / Server / Plain never bundle (even on mac the user gets
    // a flat `./tool` for shell scripting).
    for on_macos in [true, false] {
        assert!(!macosx_bundle_for_mode(BuildMode::Cli, on_macos));
        assert!(!macosx_bundle_for_mode(BuildMode::Server, on_macos));
        assert!(!macosx_bundle_for_mode(BuildMode::Plain, on_macos));
    }
}

#[test]
fn cmake_bundle_block_emits_macosx_bundle_true_and_codesign() {
    let cfg = BundleConfig {
        rpath_dirs: vec!["/opt/homebrew/opt/qtbase/lib".into()],
        dyld_framework_paths: vec![],
        dyld_library_paths: vec![],
        qml_import_paths: vec![],
    };
    let s = generate_cmake(
        "demo",
        BuildMode::Widgets,
        &Manifest::default(),
        true,
        Some(&cfg),
        &BuildExtras::default(),
        &vec![],
    );
    assert!(
        s.contains("MACOSX_BUNDLE TRUE"),
        "bundle mode should flip MACOSX_BUNDLE TRUE:\n{s}"
    );
    assert!(
        s.contains("MACOSX_BUNDLE_INFO_PLIST"),
        "bundle should reference Info.plist:\n{s}"
    );
    assert!(
        s.contains("INSTALL_RPATH"),
        "bundle should embed INSTALL_RPATH:\n{s}"
    );
    assert!(
        s.contains("@executable_path/../Frameworks"),
        "rpath should include @executable_path:\n{s}"
    );
    assert!(
        s.contains("/opt/homebrew/opt/qtbase/lib"),
        "rpath should include caller-supplied dirs:\n{s}"
    );
    // The bundle is signed after the build, not by a build step.
    assert!(
        !s.contains("add_custom_command"),
        "signing is no build step:\n{s}"
    );
}

#[test]
fn build_bundle_config_kirigami_uses_craft_only_rpath() {
    // Kirigami programs are linked against the Qt of Craft, so nothing of
    // Homebrew may be on their run path.
    let manifest = Manifest {
        cmake: CmakeConfig {
            find_package: vec!["KF6Kirigami".into()],
            link_libraries: vec!["KF6::Kirigami".into()],
        },
        ..Default::default()
    };
    let craft = Some("/Users/u/CraftRoot".to_string());
    let cfg = build_bundle_config(&manifest, &craft, "/opt/homebrew")
        .expect("Kirigami builds always produce a .app bundle on macOS");
    assert_eq!(
        cfg.rpath_dirs,
        vec!["/Users/u/CraftRoot/lib".to_string()],
        "Kirigami rpath should be Craft-only, not Homebrew Qt",
    );
    assert!(cfg.dyld_framework_paths.is_empty());
    assert!(cfg.dyld_library_paths.is_empty());
    assert!(cfg.qml_import_paths.is_empty());
}

#[test]
fn build_bundle_config_returns_some_for_non_kirigami_widgets() {
    // Plain widgets / qml builds with no KF6 should bundle
    // straight away — rpath-only path covers them on macOS.
    let cfg = build_bundle_config(&Manifest::default(), &None, "/opt/homebrew");
    assert!(cfg.is_some(), "non-Kirigami GUI builds must bundle");
    let cfg = cfg.unwrap();
    assert!(
        cfg.rpath_dirs.iter().any(|p| p.contains("/opt/qtbase/lib")),
        "rpath must include Homebrew Qt qtbase lib",
    );
    // Empty DYLD/QML overrides — rpath alone is enough so the
    // bundle stays a plain Mach-O entry, no shell launcher.
    assert!(cfg.dyld_framework_paths.is_empty());
    assert!(cfg.dyld_library_paths.is_empty());
    assert!(cfg.qml_import_paths.is_empty());
}

#[test]
fn cmake_non_bundle_keeps_macosx_bundle_false() {
    let s = generate_cmake(
        "demo",
        BuildMode::Cli,
        &Manifest::default(),
        true,
        None,
        &BuildExtras::default(),
        &vec![],
    );
    assert!(
        s.contains("MACOSX_BUNDLE FALSE"),
        "CLI mode should keep MACOSX_BUNDLE FALSE:\n{s}"
    );
    assert!(
        !s.contains("INSTALL_RPATH"),
        "CLI mode should not emit rpath block:\n{s}"
    );
}

#[test]
fn info_plist_minimal_shape_for_widgets_app() {
    let cfg = BundleConfig {
        rpath_dirs: vec![],
        dyld_framework_paths: vec![],
        dyld_library_paths: vec![],
        qml_import_paths: vec![],
    };
    let xml = render_info_plist("counter", &cfg);
    assert!(xml.contains("<key>CFBundleExecutable</key>"));
    assert!(xml.contains("<string>counter</string>"));
    assert!(xml.contains("<key>CFBundleIdentifier</key>"));
    assert!(xml.contains("org.cute.counter"));
    assert!(xml.contains("<key>NSHighResolutionCapable</key>"));
    // Empty env paths → no LSEnvironment block (avoids exporting
    // empty PATH-style vars).
    assert!(!xml.contains("LSEnvironment"));
}

#[test]
fn info_plist_includes_lsenvironment_with_dyld_and_qml_paths() {
    let cfg = BundleConfig {
        rpath_dirs: vec![],
        dyld_framework_paths: vec![
            "/opt/homebrew/opt/qtbase/lib".into(),
            "/opt/homebrew/opt/qtdeclarative/lib".into(),
        ],
        dyld_library_paths: vec!["/Users/u/CraftRoot/lib".into()],
        qml_import_paths: vec![
            "/opt/homebrew/share/qt/qml".into(),
            "/Users/u/CraftRoot/qml".into(),
        ],
    };
    let xml = render_info_plist("kdemo", &cfg);
    assert!(xml.contains("LSEnvironment"));
    assert!(
        xml.contains("DYLD_FRAMEWORK_PATH"),
        "DYLD_FRAMEWORK_PATH must be set so transitively-loaded\nlibs honour Homebrew Qt:\n{xml}"
    );
    assert!(
        xml.contains("/opt/homebrew/opt/qtbase/lib:/opt/homebrew/opt/qtdeclarative/lib"),
        "framework paths should be `:`-joined:\n{xml}"
    );
    assert!(xml.contains("DYLD_LIBRARY_PATH"));
    assert!(xml.contains("/Users/u/CraftRoot/lib"));
    assert!(xml.contains("QML_IMPORT_PATH"));
    assert!(xml.contains("/opt/homebrew/share/qt/qml:/Users/u/CraftRoot/qml"));
}


#[test]
fn the_whole_project_of_a_tool() {
    let manifest = Manifest {
        cmake: CmakeConfig {
            find_package: vec!["ZLIB".into()],
            link_libraries: vec!["ZLIB::ZLIB".into()],
        },
        cute_libraries: CuteLibraries { deps: vec!["LibA".into()], ..Default::default() },
        ..Default::default()
    };
    let s = generate_cmake(
        "demo",
        BuildMode::Cli,
        &manifest,
        true,
        None,
        &BuildExtras::default(),
        &vec!["/libs/a/lib".to_string()],
    );
    let expected = r#"cmake_minimum_required(VERSION 3.21)
project(demo CXX)

set(CMAKE_CXX_STANDARD 20)
set(CMAKE_CXX_STANDARD_REQUIRED ON)
# cutec emits the qt_create_metaobjectdata<Tag> template specialization
# itself (Qt 6.9+ moc-output form). AUTORCC packages embedded resources.
set(CMAKE_AUTOMOC OFF)
set(CMAKE_AUTORCC ON)

find_package(Qt6 REQUIRED COMPONENTS Core)
find_package(ZLIB REQUIRED)
find_package(LibA REQUIRED)

add_executable(demo
    generated/demo.cpp
)

# Plain CLI binary (not a .app bundle), so users get `./demo` directly.
set_target_properties(demo PROPERTIES MACOSX_BUNDLE FALSE)
set_target_properties(demo PROPERTIES
    INSTALL_RPATH "/libs/a/lib"
    BUILD_WITH_INSTALL_RPATH TRUE
    MACOSX_RPATH TRUE
)

target_include_directories(demo PRIVATE
    generated
    runtime/cpp
)

target_link_libraries(demo PRIVATE Qt6::Core ZLIB::ZLIB LibA::LibA)

# Precompile the Qt umbrella headers — they dominate compile
# time on Qt projects and rarely change. Disable with CUTE_NO_PCH=1.
target_precompile_headers(demo PRIVATE
    "<QtCore>"
)
"#;
    assert_eq!(s, expected);
}

#[test]
fn a_class_of_the_same_name_is_no_highlighter() {
    let own = detect_build_extras("void CodeHighlighter::paint() {}\nCodeHighlighter h;");
    assert!(own.qt6_components.is_empty());
    assert!(own.extra_includes.is_empty());
    let made = detect_build_extras("auto h = new CodeHighlighter(doc);");
    assert_eq!(made.qt6_components, vec!["Gui", "Widgets"]);
    assert_eq!(made.qt6_link_libs, vec!["Qt6::Gui", "Qt6::Widgets"]);
    assert_eq!(made.pch_headers, vec!["<QSyntaxHighlighter>"]);
    assert_eq!(made.extra_includes, vec!["#include \"cute_code_highlighter.h\"\n"]);
}
