//! What holds of the doctor's reports: how packages are named, what is told of
//! each dependency, and what is installed.

use crate::dict::{law_lists_can_be_sorted, sorted_list};
use crate::doctor::{
    command_lines, cute_ui_section, healthy, install_block, install_lines, is_packaged,
    is_qt_status, kf6_missing_packages, kf6_module_line, kf6_module_lines, kf6_section, kf6_wanted,
    libraries_section, library_line, library_lines, qt_found, qt_missing_packages, qt_module_lines,
    qt_modules_lines, qt_section, report_text, too_old, wanted_packages, with_library_lines,
    with_package_line, with_qt_lines, CuteLibraryStatus, CuteUiStatus, DoctorReport, HostProbes,
    Kf6ModuleStatus, Kf6ToolchainStatus, QtModuleStatus, QtToolchainStatus,
};
use crate::meta_laws::{
    extends, lemma_ends_contains, lemma_extends_add, lemma_extends_contains, lemma_extends_trans,
};
use crate::modes::RequiredDeps;
use crate::packages::{
    distro_label, install_prefix, kf6_package, qt_package, DistroId, QtComponentKind,
};
use crate::project_laws::{lemma_left, lemma_pushed, lemma_right};
use crate::sources::path_join;
use crate::text::{contains, decimal, join, views};
use vstd::prelude::*;

verus! {

// ---- packages ----------------------------------------------------------------------

/// The part of Qt that a component is delivered with.
pub open spec fn qt_part(component: Seq<char>) -> Option<Seq<char>> {
    if seq!["Core"@, "Gui"@, "Widgets"@, "Network"@].contains(component) {
        Some("base"@)
    } else if seq!["Qml"@, "Quick"@, "QuickControls2"@].contains(component) {
        Some("declarative"@)
    } else if component == "HttpServer"@ {
        Some("httpserver"@)
    } else if component == "Charts"@ {
        Some("charts"@)
    } else if component == "Svg"@ {
        Some("svg"@)
    } else if component == "Multimedia"@ {
        Some("multimedia"@)
    } else {
        None
    }
}

/// How a distribution names the development package of a part of Qt.
pub open spec fn qt_package_name(part: Seq<char>, distro: DistroId) -> Option<Seq<char>> {
    match distro {
        DistroId::MacOS => Some("qt"@),
        DistroId::OpenSuse => Some("qt6-"@ + part + "-devel"@),
        DistroId::Fedora => Some("qt6-qt"@ + part + "-devel"@),
        DistroId::Debian | DistroId::Ubuntu => Some("qt6-"@ + part + "-dev"@),
        DistroId::Arch => Some("qt6-"@ + part),
        DistroId::UnknownLinux | DistroId::Other => None,
    }
}

proof fn lemma_base_packages()
    ensures
        "qt6-base-devel"@ == "qt6-"@ + "base"@ + "-devel"@,
        "qt6-qtbase-devel"@ == "qt6-qt"@ + "base"@ + "-devel"@,
        "qt6-base-dev"@ == "qt6-"@ + "base"@ + "-dev"@,
        "qt6-base"@ == "qt6-"@ + "base"@,
{
    reveal_strlit("-dev");
    reveal_strlit("-devel");
    reveal_strlit("base");
    reveal_strlit("qt6-");
    reveal_strlit("qt6-base");
    reveal_strlit("qt6-base-dev");
    reveal_strlit("qt6-base-devel");
    reveal_strlit("qt6-qt");
    reveal_strlit("qt6-qtbase-devel");
    assert("qt6-base-devel"@ =~= "qt6-"@ + "base"@ + "-devel"@);
    assert("qt6-qtbase-devel"@ =~= "qt6-qt"@ + "base"@ + "-devel"@);
    assert("qt6-base-dev"@ =~= "qt6-"@ + "base"@ + "-dev"@);
    assert("qt6-base"@ =~= "qt6-"@ + "base"@);
}

proof fn lemma_declarative_packages()
    ensures
        "qt6-declarative-devel"@ == "qt6-"@ + "declarative"@ + "-devel"@,
        "qt6-qtdeclarative-devel"@ == "qt6-qt"@ + "declarative"@ + "-devel"@,
        "qt6-declarative-dev"@ == "qt6-"@ + "declarative"@ + "-dev"@,
        "qt6-declarative"@ == "qt6-"@ + "declarative"@,
{
    reveal_strlit("-dev");
    reveal_strlit("-devel");
    reveal_strlit("declarative");
    reveal_strlit("qt6-");
    reveal_strlit("qt6-declarative");
    reveal_strlit("qt6-declarative-dev");
    reveal_strlit("qt6-declarative-devel");
    reveal_strlit("qt6-qt");
    reveal_strlit("qt6-qtdeclarative-devel");
    assert("qt6-declarative-devel"@ =~= "qt6-"@ + "declarative"@ + "-devel"@);
    assert("qt6-qtdeclarative-devel"@ =~= "qt6-qt"@ + "declarative"@ + "-devel"@);
    assert("qt6-declarative-dev"@ =~= "qt6-"@ + "declarative"@ + "-dev"@);
    assert("qt6-declarative"@ =~= "qt6-"@ + "declarative"@);
}

proof fn lemma_httpserver_packages()
    ensures
        "qt6-httpserver-devel"@ == "qt6-"@ + "httpserver"@ + "-devel"@,
        "qt6-qthttpserver-devel"@ == "qt6-qt"@ + "httpserver"@ + "-devel"@,
        "qt6-httpserver-dev"@ == "qt6-"@ + "httpserver"@ + "-dev"@,
        "qt6-httpserver"@ == "qt6-"@ + "httpserver"@,
{
    reveal_strlit("-dev");
    reveal_strlit("-devel");
    reveal_strlit("httpserver");
    reveal_strlit("qt6-");
    reveal_strlit("qt6-httpserver");
    reveal_strlit("qt6-httpserver-dev");
    reveal_strlit("qt6-httpserver-devel");
    reveal_strlit("qt6-qt");
    reveal_strlit("qt6-qthttpserver-devel");
    assert("qt6-httpserver-devel"@ =~= "qt6-"@ + "httpserver"@ + "-devel"@);
    assert("qt6-qthttpserver-devel"@ =~= "qt6-qt"@ + "httpserver"@ + "-devel"@);
    assert("qt6-httpserver-dev"@ =~= "qt6-"@ + "httpserver"@ + "-dev"@);
    assert("qt6-httpserver"@ =~= "qt6-"@ + "httpserver"@);
}

proof fn lemma_charts_packages()
    ensures
        "qt6-charts-devel"@ == "qt6-"@ + "charts"@ + "-devel"@,
        "qt6-qtcharts-devel"@ == "qt6-qt"@ + "charts"@ + "-devel"@,
        "qt6-charts-dev"@ == "qt6-"@ + "charts"@ + "-dev"@,
        "qt6-charts"@ == "qt6-"@ + "charts"@,
{
    reveal_strlit("-dev");
    reveal_strlit("-devel");
    reveal_strlit("charts");
    reveal_strlit("qt6-");
    reveal_strlit("qt6-charts");
    reveal_strlit("qt6-charts-dev");
    reveal_strlit("qt6-charts-devel");
    reveal_strlit("qt6-qt");
    reveal_strlit("qt6-qtcharts-devel");
    assert("qt6-charts-devel"@ =~= "qt6-"@ + "charts"@ + "-devel"@);
    assert("qt6-qtcharts-devel"@ =~= "qt6-qt"@ + "charts"@ + "-devel"@);
    assert("qt6-charts-dev"@ =~= "qt6-"@ + "charts"@ + "-dev"@);
    assert("qt6-charts"@ =~= "qt6-"@ + "charts"@);
}

proof fn lemma_svg_packages()
    ensures
        "qt6-svg-devel"@ == "qt6-"@ + "svg"@ + "-devel"@,
        "qt6-qtsvg-devel"@ == "qt6-qt"@ + "svg"@ + "-devel"@,
        "qt6-svg-dev"@ == "qt6-"@ + "svg"@ + "-dev"@,
        "qt6-svg"@ == "qt6-"@ + "svg"@,
{
    reveal_strlit("-dev");
    reveal_strlit("-devel");
    reveal_strlit("qt6-");
    reveal_strlit("qt6-qt");
    reveal_strlit("qt6-qtsvg-devel");
    reveal_strlit("qt6-svg");
    reveal_strlit("qt6-svg-dev");
    reveal_strlit("qt6-svg-devel");
    reveal_strlit("svg");
    assert("qt6-svg-devel"@ =~= "qt6-"@ + "svg"@ + "-devel"@);
    assert("qt6-qtsvg-devel"@ =~= "qt6-qt"@ + "svg"@ + "-devel"@);
    assert("qt6-svg-dev"@ =~= "qt6-"@ + "svg"@ + "-dev"@);
    assert("qt6-svg"@ =~= "qt6-"@ + "svg"@);
}

proof fn lemma_multimedia_packages()
    ensures
        "qt6-multimedia-devel"@ == "qt6-"@ + "multimedia"@ + "-devel"@,
        "qt6-qtmultimedia-devel"@ == "qt6-qt"@ + "multimedia"@ + "-devel"@,
        "qt6-multimedia-dev"@ == "qt6-"@ + "multimedia"@ + "-dev"@,
        "qt6-multimedia"@ == "qt6-"@ + "multimedia"@,
{
    reveal_strlit("-dev");
    reveal_strlit("-devel");
    reveal_strlit("multimedia");
    reveal_strlit("qt6-");
    reveal_strlit("qt6-multimedia");
    reveal_strlit("qt6-multimedia-dev");
    reveal_strlit("qt6-multimedia-devel");
    reveal_strlit("qt6-qt");
    reveal_strlit("qt6-qtmultimedia-devel");
    assert("qt6-multimedia-devel"@ =~= "qt6-"@ + "multimedia"@ + "-devel"@);
    assert("qt6-qtmultimedia-devel"@ =~= "qt6-qt"@ + "multimedia"@ + "-devel"@);
    assert("qt6-multimedia-dev"@ =~= "qt6-"@ + "multimedia"@ + "-dev"@);
    assert("qt6-multimedia"@ =~= "qt6-"@ + "multimedia"@);
}

proof fn lemma_kf6_packages()
    ensures
        "kf6-kirigami-devel"@ == "kf6-"@ + "kirigami"@ + "-devel"@,
        "libkf6kirigami-dev"@ == "libkf6"@ + "kirigami"@ + "-dev"@,
        "kf6-kcoreaddons-devel"@ == "kf6-"@ + "kcoreaddons"@ + "-devel"@,
        "libkf6coreaddons-dev"@ == "libkf6"@ + "coreaddons"@ + "-dev"@,
        "kf6-ki18n-devel"@ == "kf6-"@ + "ki18n"@ + "-devel"@,
        "libkf6i18n-dev"@ == "libkf6"@ + "i18n"@ + "-dev"@,
{
    reveal_strlit("-dev");
    reveal_strlit("-devel");
    reveal_strlit("coreaddons");
    reveal_strlit("i18n");
    reveal_strlit("kcoreaddons");
    reveal_strlit("kf6-");
    reveal_strlit("kf6-kcoreaddons-devel");
    reveal_strlit("kf6-ki18n-devel");
    reveal_strlit("kf6-kirigami-devel");
    reveal_strlit("ki18n");
    reveal_strlit("kirigami");
    reveal_strlit("libkf6");
    reveal_strlit("libkf6coreaddons-dev");
    reveal_strlit("libkf6i18n-dev");
    reveal_strlit("libkf6kirigami-dev");
    assert("kf6-kirigami-devel"@ =~= "kf6-"@ + "kirigami"@ + "-devel"@);
    assert("libkf6kirigami-dev"@ =~= "libkf6"@ + "kirigami"@ + "-dev"@);
    assert("kf6-kcoreaddons-devel"@ =~= "kf6-"@ + "kcoreaddons"@ + "-devel"@);
    assert("libkf6coreaddons-dev"@ =~= "libkf6"@ + "coreaddons"@ + "-dev"@);
    assert("kf6-ki18n-devel"@ =~= "kf6-"@ + "ki18n"@ + "-devel"@);
    assert("libkf6i18n-dev"@ =~= "libkf6"@ + "i18n"@ + "-dev"@);
}

/// Every distribution names the packages of Qt in one way.
pub proof fn law_qt_packages_are_named_alike(component: Seq<char>, distro: DistroId)
    ensures
        match qt_part(component) {
            Some(part) => qt_package(component, distro) == qt_package_name(part, distro),
            None => qt_package(component, distro) is None,
        },
{
    let base = seq!["Core"@, "Gui"@, "Widgets"@, "Network"@];
    let qml = seq!["Qml"@, "Quick"@, "QuickControls2"@];
    assert(base[0] == "Core"@ && base[1] == "Gui"@ && base[2] == "Widgets"@ && base[3]
        == "Network"@);
    assert(qml[0] == "Qml"@ && qml[1] == "Quick"@ && qml[2] == "QuickControls2"@);
    if base.contains(component) {
        let i = choose|i: int| 0 <= i < base.len() && base[i] == component;
        assert(i == 0 || i == 1 || i == 2 || i == 3);
    } else if qml.contains(component) {
        let i = choose|i: int| 0 <= i < qml.len() && qml[i] == component;
        assert(i == 0 || i == 1 || i == 2);
    }
    lemma_base_packages();
    lemma_declarative_packages();
    lemma_httpserver_packages();
    lemma_charts_packages();
    lemma_svg_packages();
    lemma_multimedia_packages();
}

/// The name of a KDE Frameworks component in the packages of Debian, and in
/// those of Arch.
pub open spec fn kf6_names(component: Seq<char>) -> Option<(Seq<char>, Seq<char>)> {
    if component == "Kirigami"@ {
        Some(("kirigami"@, "kirigami"@))
    } else if component == "CoreAddons"@ {
        Some(("coreaddons"@, "kcoreaddons"@))
    } else if component == "I18n"@ {
        Some(("i18n"@, "ki18n"@))
    } else {
        None
    }
}

/// Every distribution names the packages of KDE Frameworks in one way; Fedora
/// alone has another name for Kirigami.
pub proof fn law_kf6_packages_are_named_alike(component: Seq<char>)
    ensures
        match kf6_names(component) {
            Some((d, a)) => {
                &&& kf6_package(component, DistroId::Debian) == Some("libkf6"@ + d + "-dev"@)
                &&& kf6_package(component, DistroId::Ubuntu) == Some("libkf6"@ + d + "-dev"@)
                &&& kf6_package(component, DistroId::OpenSuse) == Some("kf6-"@ + a + "-devel"@)
                &&& kf6_package(component, DistroId::Arch) == Some(a)
                &&& component != "Kirigami"@ ==> kf6_package(component, DistroId::Fedora) == Some(
                    "kf6-"@ + a + "-devel"@,
                )
                &&& component == "Kirigami"@ ==> kf6_package(component, DistroId::Fedora) == Some(
                    "kf6-kirigami2-devel"@,
                )
            },
            None => forall|d: DistroId| kf6_package(component, d) is None,
        },
{
    lemma_kf6_packages();
}

// ---- what is there -----------------------------------------------------------------

/// A component is found where the configuration file of its package stands
/// below the prefix of Qt, in `lib` or in `lib64`; without Qt none is.
pub proof fn law_components_are_found_by_their_configuration(
    deps: RequiredDeps,
    p: HostProbes,
    q: QtToolchainStatus,
    i: int,
)
    requires
        is_qt_status(deps, p, q),
        0 <= i < deps.qt6_components@.len(),
        deps.qt6_components@[i]@ != "GuiPrivate"@,
    ensures
        q.modules@.len() == deps.qt6_components@.len(),
        q.modules@[i].component@ == deps.qt6_components@[i]@,
        q.modules@[i].present <==> (p.qt_prefix matches Some(prefix) && ({
            let package = "Qt6"@ + deps.qt6_components@[i]@;
            let file = "/cmake/"@ + package + "/"@ + package + "Config.cmake"@;
            views(p.present@).contains(path_join(prefix@, "lib"@ + file)) || views(
                p.present@,
            ).contains(path_join(prefix@, "lib64"@ + file))
        })),
{
    assert(crate::doctor::is_module_status(deps.qt6_components@[i]@, p, q.modules@[i]));
    let package = "Qt6"@ + deps.qt6_components@[i]@;
    assert("lib"@ + "/cmake/"@ + package + "/"@ + package + "Config.cmake"@ =~= "lib"@ + ("/cmake/"@
        + package + "/"@ + package + "Config.cmake"@));
    assert("lib64"@ + "/cmake/"@ + package + "/"@ + package + "Config.cmake"@ =~= "lib64"@ + (
    "/cmake/"@ + package + "/"@ + package + "Config.cmake"@));
}

// ---- what is told ------------------------------------------------------------------

/// What the report says of an ordinary module of Qt.
pub open spec fn module_line(m: QtModuleStatus) -> Seq<char> {
    if m.present {
        "  + Qt6::"@ + m.component@ + "\n"@
    } else {
        "  - Qt6::"@ + m.component@ + " — missing\n"@
    }
}

proof fn lemma_self(s: Seq<char>)
    ensures
        extends(s, s),
{
    assert(s.take(s.len() as int) =~= s);
}

proof fn lemma_module(s: Seq<char>, m: QtModuleStatus)
    ensures
        extends(s, qt_module_lines(s, m)),
        m.kind is Standard ==> contains(qt_module_lines(s, m), module_line(m)),
{
    match m.kind {
        QtComponentKind::PrivateUmbrella { parent } => {
            let rest = "  + Qt6::"@ + m.component@ + " (ships with Qt6::"@ + parent@ + ")\n"@;
            assert(s + "  + Qt6::"@ + m.component@ + " (ships with Qt6::"@ + parent@ + ")\n"@ =~= s
                + rest);
            lemma_extends_add(s, rest);
        },
        QtComponentKind::TechPreview => {
            if m.present {
                let rest = "  + Qt6::"@ + m.component@ + " (Tech Preview)\n"@;
                assert(s + "  + Qt6::"@ + m.component@ + " (Tech Preview)\n"@ =~= s + rest);
                lemma_extends_add(s, rest);
            } else {
                let a = s + "  ! Qt6::"@;
                let b = a + m.component@;
                let c = b + " (Tech Preview) — not yet packaged by mainstream distros.\n"@;
                let d = c + "      Build Qt 6.11+ from source with `-feature-qtcanvaspainter`,\n"@;
                lemma_extends_add(s, "  ! Qt6::"@);
                lemma_extends_add(a, m.component@);
                lemma_extends_add(
                    b,
                    " (Tech Preview) — not yet packaged by mainstream distros.\n"@,
                );
                lemma_extends_add(
                    c,
                    "      Build Qt 6.11+ from source with `-feature-qtcanvaspainter`,\n"@,
                );
                lemma_extends_add(d, "      or wait for upstream packaging.\n"@);
                lemma_extends_trans(s, a, b);
                lemma_extends_trans(s, b, c);
                lemma_extends_trans(s, c, d);
                lemma_extends_trans(s, d, qt_module_lines(s, m));
            }
        },
        QtComponentKind::Standard => {
            assert(qt_module_lines(s, m) =~= s + module_line(m));
            lemma_extends_add(s, module_line(m));
            lemma_ends_contains(s, module_line(m));
        },
    }
}

proof fn lemma_modules(s: Seq<char>, v: Seq<QtModuleStatus>, n: int)
    requires
        0 <= n <= v.len(),
    ensures
        extends(s, qt_modules_lines(s, v, n)),
        forall|i: int|
            0 <= i < n && v[i].kind is Standard ==> contains(
                qt_modules_lines(s, v, n),
                module_line(#[trigger] v[i]),
            ),
    decreases n,
{
    if n > 0 {
        lemma_modules(s, v, n - 1);
        let before = qt_modules_lines(s, v, n - 1);
        let now = qt_modules_lines(s, v, n);
        lemma_module(before, v[n - 1]);
        lemma_extends_trans(s, before, now);
        assert forall|i: int| 0 <= i < n && v[i].kind is Standard implies contains(
            now,
            module_line(#[trigger] v[i]),
        ) by {
            if i < n - 1 {
                lemma_extends_contains(before, now, module_line(v[i]));
            }
        }
    } else {
        lemma_self(s);
    }
}

/// What the report says of where Qt is.
pub open spec fn found_line(q: QtToolchainStatus) -> Seq<char> {
    match (q.prefix, q.version) {
        (None, _) => "  - Qt 6 not found on this system.\n"@,
        (Some(p), None) => "  + Found at "@ + p@ + " (version unknown)\n"@,
        (Some(p), Some(v)) => if too_old(q) {
            "  ! Found Qt "@ + v@ + " at "@ + p@ + " — required: "@ + q.required_min_version->0@
                + " or newer.\n"@
        } else {
            "  + Found at "@ + p@ + " ("@ + v@ + ")\n"@
        },
    }
}

proof fn lemma_found(s: Seq<char>, q: QtToolchainStatus)
    ensures
        qt_found(s, q) == s + found_line(q),
{
    assert(qt_found(s, q) =~= s + found_line(q));
}

proof fn lemma_qt_section(s: Seq<char>, q: QtToolchainStatus)
    ensures
        extends(s, qt_section(s, q)),
        contains(qt_section(s, q), found_line(q)),
        forall|i: int|
            0 <= i < q.modules@.len() && q.modules@[i].kind is Standard ==> contains(
                qt_section(s, q),
                module_line(#[trigger] q.modules@[i]),
            ),
{
    let t = qt_section(s, q);
    let a = s + "Qt 6 toolchain\n"@;
    let f = a + found_line(q);
    lemma_found(a, q);
    let b = f + "\n"@;
    let c = b + "Required Qt 6 modules ("@;
    let d = c + decimal(q.modules@.len());
    let head = d + ")\n"@;
    let n = q.modules@.len() as int;
    let m = qt_modules_lines(head, q.modules@, n);
    lemma_modules(head, q.modules@, n);
    lemma_extends_add(s, "Qt 6 toolchain\n"@);
    lemma_extends_add(a, found_line(q));
    lemma_ends_contains(a, found_line(q));
    lemma_extends_add(f, "\n"@);
    lemma_extends_add(b, "Required Qt 6 modules ("@);
    lemma_extends_add(c, decimal(q.modules@.len()));
    lemma_extends_add(d, ")\n"@);
    lemma_extends_add(m, "\n"@);
    lemma_extends_trans(head, m, t);
    lemma_extends_trans(d, head, t);
    lemma_extends_trans(c, d, t);
    lemma_extends_trans(b, c, t);
    lemma_extends_trans(f, b, t);
    lemma_extends_trans(a, f, t);
    lemma_extends_trans(s, a, t);
    lemma_extends_contains(f, t, found_line(q));
    assert forall|i: int| 0 <= i < n && q.modules@[i].kind is Standard implies contains(
        t,
        module_line(#[trigger] q.modules@[i]),
    ) by {
        lemma_extends_contains(m, t, module_line(q.modules@[i]));
    }
}

/// What the report says of a component of KDE Frameworks.
pub open spec fn kf6_line(m: Kf6ModuleStatus) -> Seq<char> {
    if m.present {
        "    + KF6"@ + m.component@ + "\n"@
    } else {
        "    - KF6"@ + m.component@ + " — missing\n"@
    }
}

proof fn lemma_kf6_modules(s: Seq<char>, v: Seq<Kf6ModuleStatus>, n: int)
    requires
        0 <= n <= v.len(),
    ensures
        extends(s, kf6_module_lines(s, v, n)),
        forall|i: int|
            0 <= i < n ==> contains(kf6_module_lines(s, v, n), kf6_line(#[trigger] v[i])),
    decreases n,
{
    if n > 0 {
        lemma_kf6_modules(s, v, n - 1);
        let before = kf6_module_lines(s, v, n - 1);
        let now = kf6_module_lines(s, v, n);
        assert(kf6_module_line(before, v[n - 1]) =~= before + kf6_line(v[n - 1]));
        lemma_extends_add(before, kf6_line(v[n - 1]));
        lemma_ends_contains(before, kf6_line(v[n - 1]));
        lemma_extends_trans(s, before, now);
        assert forall|i: int| 0 <= i < n implies contains(now, kf6_line(#[trigger] v[i])) by {
            if i < n - 1 {
                lemma_extends_contains(before, now, kf6_line(v[i]));
            }
        }
    } else {
        lemma_self(s);
    }
}

proof fn lemma_craft(s: Seq<char>)
    ensures
        extends(s, crate::doctor::craft_hint_text(s)),
{
    let a = s + "  - KF 6 not found at $CRAFT_ROOT or ~/CraftRoot.\n"@;
    let b = a + "    Install via KDE Craft (https://community.kde.org/Craft):\n"@;
    let c = b + "      python3 -m venv ~/CraftRoot && source ~/CraftRoot/bin/activate\n"@;
    let d = c
        + "      curl -O https://invent.kde.org/packaging/craft/-/raw/master/setup/CraftBootstrap.py\n"@;
    let e = d + "      python3 CraftBootstrap.py\n"@;
    lemma_extends_add(s, "  - KF 6 not found at $CRAFT_ROOT or ~/CraftRoot.\n"@);
    lemma_extends_add(a, "    Install via KDE Craft (https://community.kde.org/Craft):\n"@);
    lemma_extends_add(b, "      python3 -m venv ~/CraftRoot && source ~/CraftRoot/bin/activate\n"@);
    lemma_extends_add(
        c,
        "      curl -O https://invent.kde.org/packaging/craft/-/raw/master/setup/CraftBootstrap.py\n"@,
    );
    lemma_extends_add(d, "      python3 CraftBootstrap.py\n"@);
    lemma_extends_add(e, "      craft kirigami\n"@);
    lemma_extends_trans(s, a, b);
    lemma_extends_trans(s, b, c);
    lemma_extends_trans(s, c, d);
    lemma_extends_trans(s, d, e);
    lemma_extends_trans(s, e, crate::doctor::craft_hint_text(s));
}

proof fn lemma_kf6_section(s: Seq<char>, k: Kf6ToolchainStatus, distro: DistroId)
    ensures
        extends(s, kf6_section(s, k, distro)),
        forall|i: int|
            0 <= i < k.modules@.len() ==> contains(
                kf6_section(s, k, distro),
                kf6_line(#[trigger] k.modules@[i]),
            ),
{
    let t = kf6_section(s, k, distro);
    let head = s + "KF 6 / Kirigami toolchain\n"@;
    let found = match k.prefix {
        Some(p) => head + "  + Found at "@ + p@ + "\n"@,
        None => if distro == DistroId::MacOS {
            crate::doctor::craft_hint_text(head)
        } else {
            head + "  - KF 6 not found.\n"@
        },
    };
    lemma_extends_add(s, "KF 6 / Kirigami toolchain\n"@);
    match k.prefix {
        Some(p) => {
            assert(found =~= head + ("  + Found at "@ + p@ + "\n"@));
            lemma_extends_add(head, "  + Found at "@ + p@ + "\n"@);
        },
        None => {
            lemma_craft(head);
            lemma_extends_add(head, "  - KF 6 not found.\n"@);
        },
    }
    let n = k.modules@.len() as int;
    let m = kf6_module_lines(found, k.modules@, n);
    lemma_kf6_modules(found, k.modules@, n);
    lemma_extends_add(m, "\n"@);
    lemma_extends_trans(found, m, t);
    lemma_extends_trans(head, found, t);
    lemma_extends_trans(s, head, t);
    assert forall|i: int| 0 <= i < n implies contains(t, kf6_line(#[trigger] k.modules@[i])) by {
        lemma_extends_contains(m, t, kf6_line(k.modules@[i]));
    }
}

/// What the report says of the CuteUI runtime.
pub open spec fn cute_ui_line(c: CuteUiStatus) -> Seq<char> {
    match c.prefix {
        Some(p) => "  + Installed at "@ + p@ + "\n"@,
        None => "  - CuteUI runtime not installed.\n"@ + "    Install with: cute install-cute-ui\n"@,
    }
}

proof fn lemma_cute_ui_section(s: Seq<char>, c: CuteUiStatus)
    ensures
        extends(s, cute_ui_section(s, c)),
        contains(cute_ui_section(s, c), cute_ui_line(c)),
{
    let t = cute_ui_section(s, c);
    let head = s + "CuteUI runtime\n"@;
    let a = head + cute_ui_line(c);
    let rest = match c.prefix {
        Some(p) => "\n"@,
        None => "    (Requires Qt "@ + c.qt_min@ + " or newer for QtCanvasPainter.)\n"@ + "\n"@,
    };
    assert(t =~= a + rest);
    lemma_extends_add(s, "CuteUI runtime\n"@);
    lemma_extends_add(head, cute_ui_line(c));
    lemma_ends_contains(head, cute_ui_line(c));
    lemma_extends_add(a, rest);
    lemma_extends_trans(head, a, t);
    lemma_extends_trans(s, head, t);
    lemma_extends_contains(a, t, cute_ui_line(c));
}

/// What the report says of a library.
pub open spec fn lib_line(l: CuteLibraryStatus) -> Seq<char> {
    match l.prefix {
        Some(p) => "  + "@ + l.name@ + " at "@ + p@ + "\n"@,
        None => "  - "@ + l.name@ + " — missing. Install with: cute install <path-or-git-url>\n"@,
    }
}

proof fn lemma_libraries(s: Seq<char>, v: Seq<CuteLibraryStatus>, n: int)
    requires
        0 <= n <= v.len(),
    ensures
        extends(s, library_lines(s, v, n)),
        forall|i: int| 0 <= i < n ==> contains(library_lines(s, v, n), lib_line(#[trigger] v[i])),
    decreases n,
{
    if n > 0 {
        lemma_libraries(s, v, n - 1);
        let before = library_lines(s, v, n - 1);
        let now = library_lines(s, v, n);
        assert(library_line(before, v[n - 1]) =~= before + lib_line(v[n - 1]));
        lemma_extends_add(before, lib_line(v[n - 1]));
        lemma_ends_contains(before, lib_line(v[n - 1]));
        lemma_extends_trans(s, before, now);
        assert forall|i: int| 0 <= i < n implies contains(now, lib_line(#[trigger] v[i])) by {
            if i < n - 1 {
                lemma_extends_contains(before, now, lib_line(v[i]));
            }
        }
    } else {
        lemma_self(s);
    }
}

proof fn lemma_libraries_section(s: Seq<char>, v: Seq<CuteLibraryStatus>)
    ensures
        extends(s, libraries_section(s, v)),
        forall|i: int|
            0 <= i < v.len() ==> contains(libraries_section(s, v), lib_line(#[trigger] v[i])),
{
    let t = libraries_section(s, v);
    let rest = "Cute libraries ("@ + decimal(v.len()) + ")\n"@;
    let head = s + rest;
    assert(s + "Cute libraries ("@ + decimal(v.len()) + ")\n"@ =~= head);
    let m = library_lines(head, v, v.len() as int);
    lemma_extends_add(s, rest);
    lemma_libraries(head, v, v.len() as int);
    lemma_extends_add(m, "\n"@);
    lemma_extends_trans(head, m, t);
    lemma_extends_trans(s, head, t);
    assert forall|i: int| 0 <= i < v.len() implies contains(t, lib_line(#[trigger] v[i])) by {
        lemma_extends_contains(m, t, lib_line(v[i]));
    }
}

proof fn lemma_commands(s: Seq<char>, v: Seq<Seq<char>>, n: int)
    requires
        0 <= n <= v.len(),
    ensures
        extends(s, command_lines(s, v, n)),
        forall|i: int|
            0 <= i < n ==> contains(command_lines(s, v, n), "    "@ + #[trigger] v[i] + "\n"@),
    decreases n,
{
    if n > 0 {
        lemma_commands(s, v, n - 1);
        let before = command_lines(s, v, n - 1);
        let now = command_lines(s, v, n);
        let line = "    "@ + v[n - 1] + "\n"@;
        assert(now =~= before + line);
        lemma_extends_add(before, line);
        lemma_ends_contains(before, line);
        lemma_extends_trans(s, before, now);
        assert forall|i: int| 0 <= i < n implies contains(now, "    "@ + #[trigger] v[i] + "\n"@) by {
            if i < n - 1 {
                lemma_extends_contains(before, now, "    "@ + v[i] + "\n"@);
            }
        }
    } else {
        lemma_self(s);
    }
}

proof fn lemma_install_block(s: Seq<char>, r: DoctorReport)
    ensures
        extends(s, install_block(s, r)),
        forall|i: int|
            0 <= i < install_lines(r).len() ==> contains(
                install_block(s, r),
                "    "@ + #[trigger] install_lines(r)[i] + "\n"@,
            ),
{
    let t = install_block(s, r);
    let lines = install_lines(r);
    let a = s + "To install missing dependencies, run:\n"@;
    let head = a + "\n"@;
    lemma_extends_add(s, "To install missing dependencies, run:\n"@);
    lemma_extends_add(a, "\n"@);
    let m = if lines.len() == 0 {
        head + "    (no automatic install command available — see notes above)\n"@
    } else {
        command_lines(head, lines, lines.len() as int)
    };
    lemma_extends_add(head, "    (no automatic install command available — see notes above)\n"@);
    lemma_commands(head, lines, lines.len() as int);
    lemma_extends_add(m, "\n"@);
    lemma_extends_add(m + "\n"@, "Then run `cute build` again.\n"@);
    lemma_extends_trans(m, m + "\n"@, t);
    lemma_extends_trans(head, m, t);
    lemma_extends_trans(a, head, t);
    lemma_extends_trans(s, a, t);
    assert forall|i: int| 0 <= i < lines.len() implies contains(
        t,
        "    "@ + #[trigger] lines[i] + "\n"@,
    ) by {
        lemma_extends_contains(m, t, "    "@ + lines[i] + "\n"@);
    }
}

/// The report tells of each dependency that was examined: where Qt is, each of
/// its ordinary modules, each component of KDE Frameworks, the CuteUI runtime
/// and each library; and where something is missing, it gives every command
/// that installs it.
pub proof fn law_reports_tell_of_every_dependency(r: DoctorReport)
    requires
        !r.library_mode_skipped,
    ensures
        r.qt matches Some(q) ==> contains(report_text(r), found_line(q)),
        r.qt matches Some(q) ==> forall|i: int|
            0 <= i < q.modules@.len() && q.modules@[i].kind is Standard ==> contains(
                report_text(r),
                module_line(#[trigger] q.modules@[i]),
            ),
        r.kf6 matches Some(k) ==> forall|i: int|
            0 <= i < k.modules@.len() ==> contains(
                report_text(r),
                kf6_line(#[trigger] k.modules@[i]),
            ),
        r.cute_ui matches Some(c) ==> contains(report_text(r), cute_ui_line(c)),
        forall|i: int|
            0 <= i < r.cute_libraries@.len() ==> contains(
                report_text(r),
                lib_line(#[trigger] r.cute_libraries@[i]),
            ),
        healthy(r) ==> contains(
            report_text(r),
            "All dependencies present. `cute build` should succeed.\n"@,
        ),
        !healthy(r) ==> forall|i: int|
            0 <= i < install_lines(r).len() ==> contains(
                report_text(r),
                "    "@ + #[trigger] install_lines(r)[i] + "\n"@,
            ),
{
    let t = report_text(r);
    let head = "==> Cute doctor\n\n"@;
    let s1 = match r.mode_and_deps {
        Some(md) => head + "Project: "@ + r.project_path@ + " (BuildMode::"@
            + crate::modes::mode_name(md.mode) + ")\n"@ + "\n"@,
        None => head,
    };
    let s2 = match r.qt {
        Some(q) => qt_section(s1, q),
        None => s1,
    };
    let s3 = match r.kf6 {
        Some(k) => kf6_section(s2, k, r.distro),
        None => s2,
    };
    let s4 = match r.cute_ui {
        Some(c) => cute_ui_section(s3, c),
        None => s3,
    };
    let libs = r.cute_libraries@;
    let s5 = if libs.len() > 0 {
        libraries_section(s4, libs)
    } else {
        s4
    };
    let told = "Detected distro: "@ + distro_label(r.distro) + "\n"@ + "\n"@;
    let s6 = s5 + told;
    assert(s5 + "Detected distro: "@ + distro_label(r.distro) + "\n"@ + "\n"@ =~= s6);
    let well = "All dependencies present. `cute build` should succeed.\n"@;
    lemma_self(s1);
    lemma_self(s2);
    lemma_self(s3);
    lemma_self(s4);
    lemma_extends_add(s5, told);
    lemma_extends_add(s6, well);
    lemma_ends_contains(s6, well);
    lemma_install_block(s6, r);
    lemma_libraries_section(s4, libs);
    lemma_extends_trans(s5, s6, t);
    lemma_extends_trans(s4, s5, t);
    if let Some(c) = r.cute_ui {
        lemma_cute_ui_section(s3, c);
        lemma_extends_contains(s4, t, cute_ui_line(c));
    }
    lemma_extends_trans(s3, s4, t);
    if let Some(k) = r.kf6 {
        lemma_kf6_section(s2, k, r.distro);
        assert forall|i: int| 0 <= i < k.modules@.len() implies contains(
            t,
            kf6_line(#[trigger] k.modules@[i]),
        ) by {
            lemma_extends_contains(s3, t, kf6_line(k.modules@[i]));
        }
    }
    lemma_extends_trans(s2, s3, t);
    if let Some(q) = r.qt {
        lemma_qt_section(s1, q);
        lemma_extends_contains(s2, t, found_line(q));
        assert forall|i: int| 0 <= i < q.modules@.len() && q.modules@[i].kind is Standard implies contains(
            t,
            module_line(#[trigger] q.modules@[i]),
        ) by {
            lemma_extends_contains(s2, t, module_line(q.modules@[i]));
        }
    }
    assert forall|i: int| 0 <= i < libs.len() implies contains(t, lib_line(#[trigger] libs[i])) by {
        lemma_extends_contains(s5, t, lib_line(libs[i]));
    }
}

// ---- what is installed -------------------------------------------------------------

proof fn lemma_qt_missing(q: QtToolchainStatus, distro: DistroId, i: int, n: int)
    requires
        0 <= i < n <= q.modules@.len(),
        q.modules@[i].kind is Standard,
        q.prefix is None || !q.modules@[i].present,
        qt_package(q.modules@[i].component@, distro) is Some,
    ensures
        qt_missing_packages(q, distro, n).contains(
            qt_package(q.modules@[i].component@, distro)->0,
        ),
    decreases n,
{
    let x = qt_package(q.modules@[i].component@, distro)->0;
    let before = qt_missing_packages(q, distro, n - 1);
    if i < n - 1 {
        lemma_qt_missing(q, distro, i, n - 1);
    }
    if let Some(p) = qt_package(q.modules@[n - 1].component@, distro) {
        if i < n - 1 || p == x {
            lemma_pushed(before, p, x);
        }
    }
}

proof fn lemma_kf6_missing(k: Kf6ToolchainStatus, distro: DistroId, i: int, n: int)
    requires
        0 <= i < n <= k.modules@.len(),
        k.prefix is None || !k.modules@[i].present,
        kf6_package(k.modules@[i].component@, distro) is Some,
    ensures
        kf6_missing_packages(k, distro, n).contains(
            kf6_package(k.modules@[i].component@, distro)->0,
        ),
    decreases n,
{
    let x = kf6_package(k.modules@[i].component@, distro)->0;
    let before = kf6_missing_packages(k, distro, n - 1);
    if i < n - 1 {
        lemma_kf6_missing(k, distro, i, n - 1);
    }
    if let Some(p) = kf6_package(k.modules@[n - 1].component@, distro) {
        if i < n - 1 || p == x {
            lemma_pushed(before, p, x);
        }
    }
}

/// The package of every ordinary module of Qt and of every component of KDE
/// Frameworks that is missing is to be installed; without any of KDE Frameworks
/// where some is needed, that of Kirigami is.
pub proof fn law_missing_packages_are_wanted(r: DoctorReport, i: int)
    ensures
        r.qt matches Some(q) ==> (0 <= i < q.modules@.len() && q.modules@[i].kind is Standard
            && !q.modules@[i].present && qt_package(q.modules@[i].component@, r.distro) is Some
            ==> wanted_packages(r).contains(qt_package(q.modules@[i].component@, r.distro)->0)),
        r.kf6 matches Some(k) ==> (0 <= i < k.modules@.len() && !k.modules@[i].present
            && kf6_package(k.modules@[i].component@, r.distro) is Some ==> wanted_packages(
            r,
        ).contains(kf6_package(k.modules@[i].component@, r.distro)->0)),
        r.kf6 matches Some(k) ==> (k.prefix is None && k.modules@.len() == 0 && kf6_package(
            "Kirigami"@,
            r.distro,
        ) is Some ==> wanted_packages(r).contains(kf6_package("Kirigami"@, r.distro)->0)),
{
    let a = match r.qt {
        Some(q) => sorted_list(qt_missing_packages(q, r.distro, q.modules@.len() as int)),
        None => Seq::empty(),
    };
    let b = match r.kf6 {
        Some(k) => sorted_list(kf6_wanted(k, r.distro)),
        None => Seq::empty(),
    };
    if let Some(q) = r.qt {
        law_lists_can_be_sorted(qt_missing_packages(q, r.distro, q.modules@.len() as int));
        if 0 <= i < q.modules@.len() && q.modules@[i].kind is Standard && !q.modules@[i].present
            && qt_package(q.modules@[i].component@, r.distro) is Some {
            lemma_qt_missing(q, r.distro, i, q.modules@.len() as int);
            lemma_left(a, b, qt_package(q.modules@[i].component@, r.distro)->0);
        }
    }
    if let Some(k) = r.kf6 {
        law_lists_can_be_sorted(kf6_wanted(k, r.distro));
        let named = kf6_missing_packages(k, r.distro, k.modules@.len() as int);
        if 0 <= i < k.modules@.len() && !k.modules@[i].present && kf6_package(
            k.modules@[i].component@,
            r.distro,
        ) is Some {
            lemma_kf6_missing(k, r.distro, i, k.modules@.len() as int);
            lemma_right(a, b, kf6_package(k.modules@[i].component@, r.distro)->0);
        }
        if k.prefix is None && k.modules@.len() == 0 && kf6_package("Kirigami"@, r.distro) is Some {
            let x = kf6_package("Kirigami"@, r.distro)->0;
            lemma_pushed(named, x, x);
            lemma_right(a, b, x);
        }
    }
}

proof fn lemma_library_lines(
    lines: Seq<Seq<char>>,
    libs: Seq<CuteLibraryStatus>,
    n: int,
    x: Seq<char>,
)
    requires
        0 <= n <= libs.len(),
        lines.contains(x) || exists|i: int|
            0 <= i < n && (#[trigger] libs[i]).prefix is None && x
                == "cute install <path-or-git-url-for-"@ + libs[i].name@ + ">"@,
    ensures
        with_library_lines(lines, libs, n).contains(x),
    decreases n,
{
    if n > 0 {
        let before = with_library_lines(lines, libs, n - 1);
        let line = "cute install <path-or-git-url-for-"@ + libs[n - 1].name@ + ">"@;
        if libs[n - 1].prefix is None && x == line {
            lemma_pushed(before, line, x);
        } else {
            lemma_library_lines(lines, libs, n - 1, x);
            if libs[n - 1].prefix is None {
                lemma_pushed(before, line, x);
            }
        }
    }
}

/// What is missing has its command: one for all packages where the
/// distribution has them, one for the CuteUI runtime, and one for each library.
pub proof fn law_missing_things_are_installed(r: DoctorReport, i: int)
    ensures
        is_packaged(r.distro) && wanted_packages(r).len() > 0 ==> install_lines(r).contains(
            install_prefix(r.distro) + join(wanted_packages(r), " "@),
        ),
        r.cute_ui is Some && r.cute_ui->0.prefix is None ==> install_lines(r).contains(
            "cute install-cute-ui"@,
        ),
        0 <= i < r.cute_libraries@.len() && r.cute_libraries@[i].prefix is None ==> install_lines(
            r,
        ).contains("cute install <path-or-git-url-for-"@ + r.cute_libraries@[i].name@ + ">"@),
{
    let e = Seq::<Seq<char>>::empty();
    let upgraded = if r.qt is Some && r.qt->0.prefix is Some && too_old(r.qt->0) && r.distro
        == DistroId::MacOS {
        e.push("brew upgrade qt"@)
    } else {
        e
    };
    let a = match r.qt {
        Some(q) => with_qt_lines(upgraded, r.distro, q),
        None => upgraded,
    };
    let b = with_package_line(a, r.distro, wanted_packages(r));
    let c = if r.cute_ui is Some && r.cute_ui->0.prefix is None {
        b.push("cute install-cute-ui"@)
    } else {
        b
    };
    let libs = r.cute_libraries@;
    let n = libs.len() as int;
    if is_packaged(r.distro) && wanted_packages(r).len() > 0 {
        let x = install_prefix(r.distro) + join(wanted_packages(r), " "@);
        lemma_pushed(a, x, x);
        lemma_pushed(b, "cute install-cute-ui"@, x);
        lemma_library_lines(c, libs, n, x);
    }
    if r.cute_ui is Some && r.cute_ui->0.prefix is None {
        lemma_pushed(b, "cute install-cute-ui"@, "cute install-cute-ui"@);
        lemma_library_lines(c, libs, n, "cute install-cute-ui"@);
    }
    if 0 <= i < n && libs[i].prefix is None {
        lemma_library_lines(
            c,
            libs,
            n,
            "cute install <path-or-git-url-for-"@ + libs[i].name@ + ">"@,
        );
    }
}

} // verus!
