use cute::dict::{sorted_set, Dict};
use cute::doctor::{
    build_install_command_lines, collect_kf6_status, collect_qt_status, qt_module_is_ok, run,
    version_at_least, DoctorReport, HostProbes, QtModuleStatus,
};
use cute::manifest::{DriverError, Library, Manifest};
use cute::modes::{required_deps_for, BuildMode};
use cute::packages::{
    detect_distro, parse_os_release, parse_qt6_components_from_find_package, qt_packages_for,
    DistroId, HostOs, QtComponentKind,
};
use cute::plan::{
    after_build, after_configure, cache_dir_for, cache_root, compile_binary_with_mode,
    compile_to_binary, compile_to_library, compile_to_test_binary, compile_to_test_binary_multi,
    fnv1a_64, host_triple_short, pick_product, product_candidates, BuildTarget, HostFacts,
};
use cute::probe::{
    cmake_config_files, craft_candidates, find_craft_prefix, find_cute_library_prefix,
    find_cute_ui_prefix, find_qt_prefix, has_cmake_config, has_cute_library_config,
    has_cute_ui_config, library_cache_root, library_dir, needs_write, qt_candidates, read_qt_version,
    CacheEntry, Probe, QmakeAnswer,
};
use cute::cmake::{format_cmake_configure_failure, EmitResult, EmittedView};

fn s(x: &str) -> Option<String> {
    Some(x.to_string())
}

fn probes(distro: DistroId) -> HostProbes {
    HostProbes {
        distro,
        qt_prefix: s("/qt"),
        qt_version: s("6.11.0"),
        craft_prefix: None,
        cute_ui_prefix: None,
        library_prefixes: vec![],
        present: vec![],
    }
}

fn with_qt(mut p: HostProbes, names: &[&str]) -> HostProbes {
    for n in names {
        p.present.push(format!("/qt/lib/cmake/{n}/{n}Config.cmake"));
    }
    p
}

#[test]
fn a_complete_host_is_healthy() {
    let p = with_qt(probes(DistroId::Fedora), &["Qt6Core", "Qt6Gui", "Qt6Widgets"]);
    let r = run("main.cute", &Manifest::default(), BuildMode::Widgets, &p);
    assert!(r.is_healthy());
    assert!(build_install_command_lines(&r).is_empty());
    let text = r.render();
    assert!(text.starts_with("==> Cute doctor\n\nProject: main.cute (BuildMode::Widgets)\n\n"), "{text}");
    assert!(text.contains("Qt 6 toolchain\n  + Found at /qt (6.11.0)\n\nRequired Qt 6 modules (3)\n"), "{text}");
    assert!(text.contains("  + Qt6::Widgets\n"), "{text}");
    assert!(text.ends_with("All dependencies present. `cute build` should succeed.\n"), "{text}");
}

#[test]
fn missing_modules_are_named() {
    let p = with_qt(probes(DistroId::MacOS), &["Qt6Core", "Qt6Gui"]);
    let r = run("main.cute", &Manifest::default(), BuildMode::Widgets, &p);
    assert!(!r.is_healthy());
    assert_eq!(build_install_command_lines(&r), vec!["brew install qt"]);
    let text = r.render();
    assert!(text.contains("  - Qt6::Widgets — missing\n"), "{text}");
    assert!(
        text.ends_with(
            "To install missing dependencies, run:\n\n    brew install qt\n\nThen run `cute build` again.\n"
        ),
        "{text}"
    );
}

#[test]
fn an_old_qt_is_not_enough_for_the_runtime() {
    let mut p = probes(DistroId::MacOS);
    p.qt_version = s("6.10.2");
    let r = run("main.cute", &Manifest::default(), BuildMode::CuteUi, &p);
    assert!(!r.is_healthy());
    let text = r.render();
    assert!(text.contains("  ! Found Qt 6.10.2 at /qt — required: 6.11 or newer.\n"), "{text}");
    assert!(text.contains("  - CuteUI runtime not installed.\n"), "{text}");
    let lines = build_install_command_lines(&r);
    assert_eq!(lines[0], "brew upgrade qt");
    assert_eq!(lines.last().map(|l| l.as_str()), Some("cute install-cute-ui"));
}

#[test]
fn without_qt_everything_is_missing() {
    let mut p = probes(DistroId::UnknownLinux);
    p.qt_prefix = None;
    p.qt_version = None;
    let r = run("main.cute", &Manifest::default(), BuildMode::Cli, &p);
    assert!(r.render().contains("  - Qt 6 not found on this system.\n"));
    let q = r.qt.as_ref().expect("qt");
    assert!(q.modules.iter().all(|m| !m.present));
    assert_eq!(
        build_install_command_lines(&r),
        vec!["# Install Qt 6 development packages from your distro:", "#   needed: Core"]
    );
}

#[test]
fn previews_do_not_fail() {
    let m = QtModuleStatus {
        component: "CanvasPainter".to_string(),
        kind: QtComponentKind::TechPreview,
        present: false,
    };
    assert!(qt_module_is_ok(&m));
    let mut p = with_qt(probes(DistroId::Arch), &["Qt6Core", "Qt6Gui", "Qt6Svg"]);
    p.cute_ui_prefix = s("/ui");
    let r = run("main.cute", &Manifest::default(), BuildMode::CuteUi, &p);
    let deps = &r.mode_and_deps.as_ref().expect("deps").deps;
    assert!(deps.needs_cute_ui);
    let q = r.qt.as_ref().expect("qt");
    let missing: Vec<&str> = q
        .modules
        .iter()
        .filter(|m| !m.present)
        .map(|m| m.component.as_str())
        .collect();
    assert_eq!(missing, ["CanvasPainter"]);
    assert!(r.is_healthy());
    let text = r.render();
    assert!(
        text.contains("  ! Qt6::CanvasPainter (Tech Preview) — not yet packaged"),
        "{text}"
    );
    assert!(text.ends_with("All dependencies present. `cute build` should succeed.\n"), "{text}");
}

#[test]
fn only_the_runtime_mode_needs_the_runtime() {
    for mode in [BuildMode::Qml, BuildMode::Widgets, BuildMode::Cli, BuildMode::Server] {
        let r = run("main.cute", &Manifest::default(), mode, &probes(DistroId::Arch));
        assert!(!r.mode_and_deps.expect("deps").deps.needs_cute_ui);
        assert!(r.cute_ui.is_none());
    }
}

#[test]
fn unknown_systems_are_told_in_words() {
    let p = with_qt(probes(DistroId::UnknownLinux), &["Qt6Gui"]);
    let r = run("main.cute", &Manifest::default(), BuildMode::Widgets, &p);
    assert!(!r.is_healthy());
    let lines = build_install_command_lines(&r);
    assert_eq!(
        lines,
        vec!["# Install Qt 6 development packages from your distro:", "#   needed: Core Widgets"]
    );
    let p = with_qt(probes(DistroId::Other), &["Qt6Gui"]);
    let r = run("main.cute", &Manifest::default(), BuildMode::Widgets, &p);
    assert_eq!(
        build_install_command_lines(&r),
        vec![
            "# Install Qt 6 with the online installer: https://www.qt.io/download-qt-installer"
        ]
    );
}

#[test]
fn one_command_installs_all_packages() {
    let mut m = Manifest::default();
    m.cmake.find_package = vec!["KF6Kirigami".to_string()];
    let p = with_qt(probes(DistroId::Arch), &["Qt6Core"]);
    let r = run("main.cute", &m, BuildMode::Widgets, &p);
    let lines = build_install_command_lines(&r);
    let commands: Vec<&String> = lines.iter().filter(|l| l.starts_with("sudo ")).collect();
    assert_eq!(commands.len(), 1, "{lines:?}");
    let words: Vec<&str> = commands[0].split(' ').collect();
    assert!(words.contains(&"qt6-base") && words.contains(&"kirigami"), "{lines:?}");
    assert_eq!(words.last(), Some(&"kirigami"), "{lines:?}");
}

#[test]
fn only_the_names_of_a_release_count() {
    for text in ["ID=arch\n", "ID=\"arch\"\n", "ID='arch'\n", "NAME=x\nID=arch\nVERSION=9\n"] {
        assert_eq!(parse_os_release(text), DistroId::Arch, "{text}");
    }
    let ab = "ID=thing\nID_LIKE=\"fedora rhel\"\n";
    let ba = "ID_LIKE=\"fedora rhel\"\nID=thing\n";
    assert_eq!(parse_os_release(ab), DistroId::Fedora);
    assert_eq!(parse_os_release(ba), DistroId::Fedora);
    assert_eq!(parse_os_release("NAME=Fedora\nVARIANT_ID=arch\n"), DistroId::UnknownLinux);
}

#[test]
fn kde_modules_are_sorted_and_looked_up() {
    let mut m = Manifest::default();
    m.cmake.find_package = vec![
        "KF6 COMPONENTS Kirigami CoreAddons REQUIRED".to_string(),
        "KF6Kirigami".to_string(),
    ];
    let mut p = probes(DistroId::Arch);
    p.craft_prefix = s("/craft");
    p.present = vec!["/craft/lib/cmake/KF6Kirigami/KF6KirigamiConfig.cmake".to_string()];
    let deps = required_deps_for(BuildMode::Qml, &m);
    let k = collect_kf6_status(&deps, &p);
    let got: Vec<(&str, bool)> =
        k.modules.iter().map(|x| (x.component.as_str(), x.present)).collect();
    assert_eq!(got, vec![("CoreAddons", false), ("Kirigami", true)]);
    let q = collect_qt_status(&deps, &p);
    assert_eq!(q.prefix, s("/qt"));
}

#[test]
fn libraries_are_not_examined() {
    let mut m = Manifest::default();
    m.library = Some(Library {
        name: "L".to_string(),
        version: "1".to_string(),
        description: String::new(),
    });
    let r = run("lib.cute", &m, BuildMode::Plain, &probes(DistroId::Debian));
    assert!(r.library_mode_skipped && r.is_healthy());
    assert!(r.render().contains("Project: lib.cute ([library] mode)\n"));
}

#[test]
fn missing_cute_libraries_are_named() {
    let mut m = Manifest::default();
    m.cute_libraries.deps = vec!["LibA".to_string(), "LibB".to_string()];
    let mut p = with_qt(probes(DistroId::Debian), &["Qt6Core"]);
    p.library_prefixes = vec![s("/libs/a"), None];
    let r: DoctorReport = run("main.cute", &m, BuildMode::Cli, &p);
    let text = r.render();
    assert!(text.contains("Cute libraries (2)\n  + LibA at /libs/a\n"), "{text}");
    assert_eq!(
        build_install_command_lines(&r).last().map(|l| l.as_str()),
        Some("cute install <path-or-git-url-for-LibB>")
    );
}

#[test]
fn versions_are_compared_by_number() {
    assert!(version_at_least("6.9", "6.9"));
    assert!(!version_at_least("6.9", "6.10"));
    assert!(version_at_least("7", "6.99.99"));
    assert!(version_at_least("6.11", "6.x.11"), "what is no number does not count");
}

#[test]
fn distros() {
    assert_eq!(detect_distro(HostOs::MacOs, None), DistroId::MacOS);
    assert_eq!(detect_distro(HostOs::Linux, Some("ID=fedora\n")), DistroId::Fedora);
    assert_eq!(detect_distro(HostOs::Linux, None), DistroId::UnknownLinux);
    assert_eq!(detect_distro(HostOs::Other, Some("ID=fedora\n")), DistroId::Other);
    assert_eq!(
        parse_qt6_components_from_find_package("Qt6 COMPONENTS Charts Svg REQUIRED"),
        vec!["Charts", "Svg"]
    );
    assert!(qt_packages_for("Charts", DistroId::Fedora).is_some());
}

// ---- probes ----

#[test]
fn prefixes_are_looked_for_in_order() {
    let place = |p: &str, found: bool| Probe { path: p.to_string(), found };
    let answer = |out: &str, exists: bool| QmakeAnswer {
        success: true,
        stdout: out.to_string(),
        exists,
    };
    let places = vec![place("/a", false), place("/b", true), place("/c", true)];
    assert_eq!(find_qt_prefix(&s("/env"), &None, &vec![], &places), s("/env"));
    assert_eq!(find_qt_prefix(&None, &None, &vec![answer("/q\n", true)], &places), s("/q"));
    assert_eq!(find_qt_prefix(&None, &None, &vec![answer("/q\n", false)], &places), s("/b"));
    assert_eq!(find_craft_prefix(&places), s("/b"));
    assert_eq!(find_craft_prefix(&vec![]), None);
    assert!(!qt_candidates(HostOs::MacOs).is_empty());
    assert_eq!(craft_candidates(&s("/craft"), &s("/h"))[0], "/craft");
    assert!(craft_candidates(&None, &s("/h")).contains(&"/h/CraftRoot".to_string()));
}

#[test]
fn package_configurations() {
    let present = vec!["/p/lib64/cmake/CuteUI/CuteUIConfig.cmake".to_string()];
    assert!(cmake_config_files("/p", "CuteUI").contains(&present[0]));
    assert!(has_cmake_config("/p", "CuteUI", &present));
    assert!(has_cute_ui_config("/p", &present));
    assert!(!has_cute_library_config("/p", "Other", &present));
}

#[test]
fn the_newest_install_is_taken() {
    let e = |p: &str, configured: bool, modified: Option<u64>| CacheEntry {
        path: p.to_string(),
        configured,
        modified,
    };
    let v = vec![e("/1", true, Some(3)), e("/2", false, Some(9)), e("/3", true, Some(5)), e("/4", true, Some(5))];
    assert_eq!(find_cute_library_prefix(&v), s("/3"));
    assert_eq!(find_cute_ui_prefix(&None, false, &v, &s("/dev")), s("/3"));
    assert_eq!(find_cute_ui_prefix(&s("/env"), true, &v, &None), s("/env"));
    assert_eq!(find_cute_ui_prefix(&s("/env"), false, &vec![], &s("/dev")), s("/dev"));
    let unknown = vec![e("/1", true, Some(3)), e("/2", true, None)];
    assert_eq!(find_cute_library_prefix(&unknown), None);
    assert_eq!(library_cache_root("/h", "Foo"), "/h/.cache/cute/libraries/Foo");
    assert_eq!(library_dir("/p", true), "/p/lib");
    assert_eq!(library_dir("/p", false), "/p/lib64");
}

#[test]
fn other_probes() {
    assert_eq!(
        read_qt_version(&vec![None, s("x"), s("set(PACKAGE_VERSION \"6.9.1\")\n")]),
        s("6.9.1")
    );
    assert!(needs_write(&None, "x"));
    assert!(needs_write(&s("y"), "x"));
    assert!(!needs_write(&s("x"), "x"));
}

// ---- plans ----

#[test]
fn paths_are_hashed() {
    assert_eq!(fnv1a_64(b""), 0xcbf29ce484222325);
    assert_eq!(fnv1a_64(b"a"), 0xaf63dc4c8601ec8c);
    assert_eq!(fnv1a_64(b"foobar"), 0x85944171f73967e8);
    assert_eq!(cache_dir_for("/c", b"a"), "/c/cute/build/af63dc4c8601ec8c");
    assert_eq!(cache_root(&s("/x"), &s("/h"), "/t"), "/x");
    assert_eq!(cache_root(&None, &s("/h"), "/t"), "/h/.cache");
    assert_eq!(cache_root(&None, &None, "/t"), "/t");
    assert_eq!(host_triple_short("aarch64", "macos"), "aarch64-macos");
}

fn facts() -> HostFacts {
    HostFacts {
        on_macos: false,
        pch: true,
        craft_prefix: s("/craft"),
        qt_prefix: s("/qt"),
        cute_ui_prefix: None,
        brew_prefix: "/opt/homebrew".to_string(),
        library_prefixes: vec![],
        library_rpaths: vec![],
    }
}

fn emitted(source: &str, views: Vec<EmittedView>) -> EmitResult {
    EmitResult {
        header_filename: "demo.h".to_string(),
        header: "#pragma once\n".to_string(),
        source_filename: "demo.cpp".to_string(),
        source: source.to_string(),
        views,
    }
}

#[test]
fn a_program_is_planned() {
    let e = emitted("int main() { QApplication app; }", vec![]);
    let plan = compile_binary_with_mode(
        "demo",
        &e,
        &Manifest::default(),
        &facts(),
        &None,
        &s("p"),
        "/work",
    )
    .expect("plan");
    assert_eq!(plan.mode, BuildMode::Widgets);
    assert!(plan.bundle.is_none());
    let names: Vec<&str> = plan.files.iter().map(|f| f.path.rsplit('/').next().unwrap()).collect();
    assert!(names.contains(&"demo.h") && names.contains(&"demo.cpp"), "{names:?}");
    assert!(names.contains(&"CMakeLists.txt"), "{names:?}");
    assert!(plan.configure_args.iter().any(|a| a.contains("/qt")), "{:?}", plan.configure_args);
}

#[test]
fn a_kirigami_program_prefers_craft() {
    let mut m = Manifest::default();
    m.cmake.find_package = vec!["KF6Kirigami".to_string()];
    let bare = emitted("QGuiApplication app;", vec![]);
    match compile_binary_with_mode("demo", &bare, &m, &facts(), &None, &s("p"), "/w") {
        Err(DriverError::MissingQml(p)) => assert_eq!(p, "p/main.qml"),
        other => panic!("{other:?}"),
    }
    let view = EmittedView { filename: "main.qml".to_string(), qml: "Item {}".to_string() };
    let e = emitted("QGuiApplication app;", vec![view]);
    let plan = compile_binary_with_mode("demo", &e, &m, &facts(), &None, &s("p"), "/w").expect("plan");
    let prefix = plan
        .configure_args
        .iter()
        .find(|a| a.contains("CMAKE_PREFIX_PATH"))
        .expect("prefix path");
    assert!(prefix.contains("=/craft"), "{prefix}");
}

#[test]
fn inputs_of_test_builds() {
    let (first, rest) = compile_to_test_binary_multi(&vec!["a".to_string(), "b".to_string()]).unwrap();
    assert_eq!((first.as_str(), rest), ("a", vec!["b".to_string()]));
    assert!(compile_to_test_binary("a").unwrap().1.is_empty());
    match compile_to_test_binary_multi(&vec![]) {
        Err(DriverError::NoStem(p)) => assert_eq!(p, "<empty>"),
        other => panic!("{other:?}"),
    }
    assert_eq!(compile_to_binary(&Manifest::default()), BuildTarget::Binary);
}

#[test]
fn results_of_builds() {
    assert!(after_configure(true, "", "").is_ok());
    match after_configure(false, "out", "Could NOT find Qt6") {
        Err(e) => assert!(e.message().contains("hint: run `cute doctor`"), "{}", e.message()),
        Ok(_) => panic!("expected an error"),
    }
    assert!(after_build(false, "", "boom").is_err());
    assert_eq!(
        format_cmake_configure_failure("a", "b"),
        "--- stdout ---\na\n--- stderr ---\nb"
    );
    let places = product_candidates("/b", "demo", false);
    let mut there = vec![false; places.len()];
    assert!(matches!(
        pick_product(&places, &there, "/b"),
        Err(DriverError::BinaryNotFound(_))
    ));
    *there.last_mut().unwrap() = true;
    assert_eq!(pick_product(&places, &there, "/b").unwrap(), *places.last().unwrap());
}

#[test]
fn a_library_has_no_main() {
    let mut m = Manifest::default();
    m.library = Some(Library {
        name: "Foo".to_string(),
        version: "1.0".to_string(),
        description: "Tools for foo\nand bar".to_string(),
    });
    let user = cute::ast::Module { items: vec![], span: cute::ast::Span::dummy() };
    let ok = compile_to_library(&emitted("void f() {}", vec![]), &m, &user, "/w", "/p", &s("/qt"))
        .expect("plan");
    assert!(ok.files.iter().any(|f| f.path.ends_with("CMakeLists.txt")));
    assert!(ok.files.iter().any(|f| f.path.ends_with("Foo.qpi")), "{:?}", ok.files);
    let config = ok.files.iter().find(|f| f.path.ends_with("FooConfig.cmake.in")).expect("config");
    assert_eq!(
        config.text,
        "@PACKAGE_INIT@\n\n# Tools for foo\n\ninclude(CMakeFindDependencyMacro)\n\
         find_dependency(Qt6 COMPONENTS Core Gui)\n\n\
         include(\"${CMAKE_CURRENT_LIST_DIR}/FooTargets.cmake\")\n"
    );
    assert!(ok.configure_args.iter().any(|a| a.contains("CMAKE_INSTALL_PREFIX=/p")));
    assert!(compile_to_library(
        &emitted("int main(int argc, char** argv) { QApplication app(argc, argv); }", vec![]),
        &m,
        &user,
        "/w",
        "/p",
        &None
    )
    .is_err());
    assert!(compile_to_library(
        &emitted("void f() {}", vec![]),
        &Manifest::default(),
        &user,
        "/w",
        "/p",
        &None
    )
    .is_err());
}

// ---- maps ----

#[test]
fn maps_keep_their_keys_sorted() {
    let d: Dict<u32> = Dict::new();
    let d = d.insert("b".to_string(), 1).insert("a".to_string(), 2).insert("b".to_string(), 3);
    assert_eq!(d.len(), 2);
    assert_eq!(d.key_at(0), "a");
    assert_eq!(d.get("b"), Some(&3));
    assert_eq!(d.get("c"), None);
    assert!(d.contains_key("a"));
    let v: Vec<String> = ["z", "a", "z"].iter().map(|x| x.to_string()).collect();
    assert_eq!(sorted_set(&v), vec!["a", "z"]);
}

#[test]
fn errors_as_text() {
    let text = |e: DriverError| e.message();
    assert_eq!(text(DriverError::Io("gone".to_string())), "io error: gone");
    assert_eq!(text(DriverError::Codegen("odd".to_string())), "codegen error: odd");
    assert!(text(DriverError::MissingQml("/p/main.qml".to_string())).contains("\"/p/main.qml\""));
    assert!(text(DriverError::BinaryNotFound("/b".to_string())).contains("\"/b\""));
    assert!(text(DriverError::UseNotFound {
        use_path: "a.b".to_string(),
        resolved: "/p/a/b.cute".to_string(),
    })
    .contains("\"/p/a/b.cute\""));
    assert!(!text(DriverError::CmakeMissing).is_empty());
    assert!(text(DriverError::CmakeConfigure("c".to_string())).contains("c"));
    assert!(text(DriverError::CmakeBuild("b".to_string())).contains("b"));
    assert!(text(DriverError::Manifest("m".to_string())).contains("m"));
    assert!(text(DriverError::Resolve { count: 2, first: "f".to_string() }).contains("2"));
}

#[test]
fn resources_list_every_view_once() {
    let view = |f: &str| EmittedView { filename: f.to_string(), qml: format!("// {f}") };
    let e = emitted(
        "QGuiApplication app; engine.load(QUrl(QStringLiteral(\"qrc:/main.qml\")));",
        vec![view("Zed.qml"), view("main.qml"), view("Alpha.qml")],
    );
    let plan =
        compile_binary_with_mode("demo", &e, &Manifest::default(), &facts(), &None, &None, "/w")
            .expect("plan");
    let text = |name: &str| {
        plan.files.iter().find(|f| f.path == name).map(|f| f.text.as_str()).expect("planned")
    };
    assert_eq!(
        text("qml.qrc"),
        "<RCC>\n    <qresource prefix=\"/\">\n        <file>Alpha.qml</file>\n        \
         <file>Zed.qml</file>\n        <file>main.qml</file>\n    </qresource>\n</RCC>\n"
    );
    assert_eq!(text("Zed.qml"), "// Zed.qml");
}

#[test]
fn servers_get_their_headers() {
    let e = emitted("QCoreApplication a; QHttpServer s;", vec![]);
    let plan =
        compile_binary_with_mode("demo", &e, &Manifest::default(), &facts(), &None, &None, "/w")
            .expect("plan");
    assert_eq!(plan.mode, BuildMode::Server);
    let header = &plan.files[0];
    assert_eq!(header.path, "generated/demo.h");
    assert!(header.text.starts_with("#pragma once\n"), "{}", header.text);
    assert!(header.text.contains("#include <QtHttpServer>\n#include <QtNetwork>\n"));
}
