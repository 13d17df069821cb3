//! Kinds of programs, and what each of them is built from.

use crate::manifest::Manifest;
use crate::packages::{components_of, parse_qt6_components_from_find_package};
use crate::text::{
    all_added, add_all_missing, after_last, chars_of, contains, copy_strings, find_chars, find_from,
    has, index_of, index_of_char, opt_view, rest_after_last, string_of, text_words, views, words,
};
use vstd::prelude::*;
use vstd::string::*;

verus! {

#[derive(Debug, Clone, Copy, PartialEq, Eq, Structural)]
pub enum BuildMode {
    /// A QML program.
    Qml,
    /// A QtWidgets program.
    Widgets,
    /// An HTTP service.
    Server,
    /// A program around `QCoreApplication`.
    Cli,
    /// A program without a Qt application object.
    Plain,
    /// A program on the GPU-accelerated CuteUI runtime.
    CuteUi,
}

/// The kind of program that generated C++ text is: the first of these marks
/// that occurs in it decides.
pub open spec fn mode_of(cpp: Seq<char>) -> BuildMode {
    if contains(cpp, "cute::ui::App"@) {
        BuildMode::CuteUi
    } else if contains(cpp, "QApplication app"@) {
        BuildMode::Widgets
    } else if contains(cpp, "QGuiApplication"@) || contains(cpp, "QQmlApplicationEngine"@) {
        BuildMode::Qml
    } else if contains(cpp, "QHttpServer"@) {
        BuildMode::Server
    } else if contains(cpp, "QCoreApplication"@) {
        BuildMode::Cli
    } else {
        BuildMode::Plain
    }
}

/// The kind of program that generated C++ text is.
pub fn detect_mode(cpp: &str) -> (r: BuildMode)
    ensures
        r == mode_of(cpp@),
{
    if has(cpp, "cute::ui::App") {
        BuildMode::CuteUi
    } else if has(cpp, "QApplication app") {
        BuildMode::Widgets
    } else if has(cpp, "QGuiApplication") || has(cpp, "QQmlApplicationEngine") {
        BuildMode::Qml
    } else if has(cpp, "QHttpServer") {
        BuildMode::Server
    } else if has(cpp, "QCoreApplication") {
        BuildMode::Cli
    } else {
        BuildMode::Plain
    }
}

/// The name of a mode.
pub open spec fn mode_name(mode: BuildMode) -> Seq<char> {
    match mode {
        BuildMode::Qml => "Qml"@,
        BuildMode::Widgets => "Widgets"@,
        BuildMode::Server => "Server"@,
        BuildMode::Cli => "Cli"@,
        BuildMode::Plain => "Plain"@,
        BuildMode::CuteUi => "CuteUi"@,
    }
}

impl BuildMode {
    /// The name of the mode.
    pub fn name(self) -> (r: &'static str)
        ensures
            r@ == mode_name(self),
    {
        match self {
            BuildMode::Qml => "Qml",
            BuildMode::Widgets => "Widgets",
            BuildMode::Server => "Server",
            BuildMode::Cli => "Cli",
            BuildMode::Plain => "Plain",
            BuildMode::CuteUi => "CuteUi",
        }
    }
}

/// Whether a program of this mode is bundled as an application: programs with
/// a user interface are, on macOS.
pub fn macosx_bundle_for_mode(mode: BuildMode, on_macos: bool) -> (r: bool)
    ensures
        r == (on_macos && (mode == BuildMode::Qml || mode == BuildMode::Widgets || mode
            == BuildMode::CuteUi)),
{
    on_macos && (mode == BuildMode::Qml || mode == BuildMode::Widgets || mode == BuildMode::CuteUi)
}

/// The base name of the QML file that generated C++ text loads, where it loads
/// one.
pub open spec fn qml_basename(cpp: Seq<char>) -> Option<Seq<char>> {
    let prefix = "QStringLiteral(\"qrc:/"@;
    match find_from(cpp, prefix, 0) {
        Some(start) => {
            let after = cpp.subrange(start + prefix.len(), cpp.len() as int);
            let end = index_of(after, '"');
            if 0 <= end < after.len() {
                let base = after_last(after.subrange(0, end), "/"@);
                if base.len() == 0 {
                    None
                } else {
                    Some(base)
                }
            } else {
                None
            }
        },
        None => None,
    }
}

/// The base name of the QML file that generated C++ text loads.
pub fn detect_qml_basename(cpp: &str) -> (r: Option<String>)
    ensures
        opt_view(r) == qml_basename(cpp@),
{
    let v = chars_of(cpp);
    let p = chars_of("QStringLiteral(\"qrc:/");
    match find_chars(&v, &p, 0) {
        Some(start) => {
            let n: usize = v.len();
            let rest = chars_of(string_of(&v, start + p.len(), n).as_str());
            let end: usize = index_of_char(&rest, '"', 0);
            assert(rest@.subrange(0, rest@.len() as int) =~= rest@);
            if end == rest.len() {
                return None;
            }
            let base = rest_after_last(string_of(&rest, 0, end).as_str(), "/");
            if base.as_str().is_empty() {
                None
            } else {
                Some(base)
            }
        },
        None => None,
    }
}

/// The Qt components of a mode.
pub open spec fn mode_components(mode: BuildMode) -> Seq<char> {
    match mode {
        BuildMode::Qml => "Core Gui Qml Quick QuickControls2"@,
        BuildMode::Widgets => "Core Gui Widgets"@,
        BuildMode::Server => "Core Network HttpServer"@,
        BuildMode::Cli => "Core"@,
        BuildMode::Plain => "Core"@,
        BuildMode::CuteUi => "Core Gui GuiPrivate Svg CanvasPainter"@,
    }
}

/// The Qt components of a mode.
pub fn qt6_components_for_mode(mode: BuildMode) -> (r: &'static str)
    ensures
        r@ == mode_components(mode),
{
    match mode {
        BuildMode::Qml => "Core Gui Qml Quick QuickControls2",
        BuildMode::Widgets => "Core Gui Widgets",
        BuildMode::Server => "Core Network HttpServer",
        BuildMode::Cli => "Core",
        BuildMode::Plain => "Core",
        BuildMode::CuteUi => "Core Gui GuiPrivate Svg CanvasPainter",
    }
}

/// The libraries that a mode links.
pub open spec fn mode_libs(mode: BuildMode) -> Seq<char> {
    match mode {
        BuildMode::Qml => "Qt6::Core Qt6::Gui Qt6::Qml Qt6::Quick Qt6::QuickControls2"@,
        BuildMode::Widgets => "Qt6::Core Qt6::Gui Qt6::Widgets"@,
        BuildMode::Server => "Qt6::Core Qt6::Network Qt6::HttpServer"@,
        BuildMode::Cli => "Qt6::Core"@,
        BuildMode::Plain => "Qt6::Core"@,
        BuildMode::CuteUi => "Qt6::Core Qt6::Gui Qt6::GuiPrivate Qt6::Svg Qt6::CanvasPainter cute_ui::cute_ui"@,
    }
}

/// The libraries that a mode links.
pub fn qt6_link_libs_for_mode(mode: BuildMode) -> (r: &'static str)
    ensures
        r@ == mode_libs(mode),
{
    match mode {
        BuildMode::Qml => "Qt6::Core Qt6::Gui Qt6::Qml Qt6::Quick Qt6::QuickControls2",
        BuildMode::Widgets => "Qt6::Core Qt6::Gui Qt6::Widgets",
        BuildMode::Server => "Qt6::Core Qt6::Network Qt6::HttpServer",
        BuildMode::Cli => "Qt6::Core",
        BuildMode::Plain => "Qt6::Core",
        BuildMode::CuteUi => "Qt6::Core Qt6::Gui Qt6::GuiPrivate Qt6::Svg Qt6::CanvasPainter cute_ui::cute_ui",
    }
}

/// The resource file of a mode.
pub open spec fn mode_qrc(mode: BuildMode) -> Seq<char> {
    match mode {
        BuildMode::Qml => "qml.qrc"@,
        BuildMode::Widgets => ""@,
        BuildMode::Server => ""@,
        BuildMode::Cli => ""@,
        BuildMode::Plain => ""@,
        BuildMode::CuteUi => ""@,
    }
}

/// The resource file of a mode.
pub fn sources_qrc_for_mode(mode: BuildMode) -> (r: &'static str)
    ensures
        r@ == mode_qrc(mode),
{
    match mode {
        BuildMode::Qml => "qml.qrc",
        BuildMode::Widgets => "",
        BuildMode::Server => "",
        BuildMode::Cli => "",
        BuildMode::Plain => "",
        BuildMode::CuteUi => "",
    }
}

/// The umbrella headers that a mode precompiles, most fundamental first.
pub open spec fn mode_pch(mode: BuildMode) -> Seq<char> {
    match mode {
        BuildMode::Qml => "<QtCore> <QtGui> <QtQml> <QtQuick>"@,
        BuildMode::Widgets => "<QtCore> <QtGui> <QtWidgets>"@,
        BuildMode::Server => "<QtCore> <QtNetwork> <QtHttpServer>"@,
        BuildMode::Cli => "<QtCore>"@,
        BuildMode::Plain => "<QtCore>"@,
        BuildMode::CuteUi => "<QtCore> <QtGui>"@,
    }
}

/// The umbrella headers that a mode precompiles, most fundamental first.
pub fn pch_header_words_for_mode(mode: BuildMode) -> (r: &'static str)
    ensures
        r@ == mode_pch(mode),
{
    match mode {
        BuildMode::Qml => "<QtCore> <QtGui> <QtQml> <QtQuick>",
        BuildMode::Widgets => "<QtCore> <QtGui> <QtWidgets>",
        BuildMode::Server => "<QtCore> <QtNetwork> <QtHttpServer>",
        BuildMode::Cli => "<QtCore>",
        BuildMode::Plain => "<QtCore>",
        BuildMode::CuteUi => "<QtCore> <QtGui>",
    }
}

/// The umbrella headers that a mode precompiles.
pub fn pch_headers_for_mode(mode: BuildMode) -> (r: Vec<String>)
    ensures
        views(r@) == words(mode_pch(mode)),
{
    text_words(pch_header_words_for_mode(mode))
}

// ---- what the generated text asks for ------------------------------------------------

/// What generated C++ text needs beyond its mode.
#[derive(Debug, Clone)]
pub struct BuildExtras {
    /// Qt components.
    pub qt6_components: Vec<String>,
    /// Libraries to link.
    pub qt6_link_libs: Vec<String>,
    /// Headers to precompile.
    pub pch_headers: Vec<String>,
    /// `#include` lines of the generated header.
    pub extra_includes: Vec<String>,
}

impl Default for BuildExtras {
    fn default() -> (r: BuildExtras)
        ensures
            r.qt6_components@.len() == 0,
            r.qt6_link_libs@.len() == 0,
            r.pch_headers@.len() == 0,
            r.extra_includes@.len() == 0,
    {
        BuildExtras {
            qt6_components: Vec::new(),
            qt6_link_libs: Vec::new(),
            pch_headers: Vec::new(),
            extra_includes: Vec::new(),
        }
    }
}

/// The text uses the network client classes.
pub open spec fn uses_network(cpp: Seq<char>) -> bool {
    contains(cpp, "QNetworkAccessManager"@) || contains(cpp, "QNetworkRequest"@) || contains(
        cpp,
        "QNetworkReply"@,
    )
}

/// The text makes a code highlighter of the runtime. A class that only has the
/// same name does not count.
pub open spec fn uses_highlighter(cpp: Seq<char>) -> bool {
    contains(cpp, "new CodeHighlighter("@)
}

/// `a` where the text uses the network, followed by `b` where it uses the
/// highlighter.
pub open spec fn extra_list(
    cpp: Seq<char>,
    a: Seq<Seq<char>>,
    b: Seq<Seq<char>>,
) -> Seq<Seq<char>> {
    (if uses_network(cpp) {
        a
    } else {
        Seq::empty()
    }) + (if uses_highlighter(cpp) {
        b
    } else {
        Seq::empty()
    })
}

/// What the text needs beyond its mode.
pub open spec fn are_extras_of(cpp: Seq<char>, e: BuildExtras) -> bool {
    &&& views(e.qt6_components@) == extra_list(cpp, seq!["Network"@], seq!["Gui"@, "Widgets"@])
    &&& views(e.qt6_link_libs@) == extra_list(
        cpp,
        seq!["Qt6::Network"@],
        seq!["Qt6::Gui"@, "Qt6::Widgets"@],
    )
    &&& views(e.pch_headers@) == extra_list(
        cpp,
        seq!["<QtNetwork>"@],
        seq!["<QSyntaxHighlighter>"@],
    )
    &&& views(e.extra_includes@) == extra_list(
        cpp,
        seq!["#include <QtNetwork>\n"@],
        seq!["#include \"cute_code_highlighter.h\"\n"@],
    )
}

/// What generated C++ text needs beyond its mode.
pub fn detect_build_extras(cpp: &str) -> (r: BuildExtras)
    ensures
        are_extras_of(cpp@, r),
{
    let mut out = BuildExtras::default();
    let network = has(cpp, "QNetworkAccessManager") || has(cpp, "QNetworkRequest") || has(
        cpp,
        "QNetworkReply",
    );
    let highlighter = has(cpp, "new CodeHighlighter(");
    if network {
        out.qt6_components.push("Network".to_owned());
        out.qt6_link_libs.push("Qt6::Network".to_owned());
        out.pch_headers.push("<QtNetwork>".to_owned());
        out.extra_includes.push("#include <QtNetwork>\n".to_owned());
    }
    if highlighter {
        out.qt6_components.push("Gui".to_owned());
        out.qt6_link_libs.push("Qt6::Gui".to_owned());
        out.qt6_components.push("Widgets".to_owned());
        out.qt6_link_libs.push("Qt6::Widgets".to_owned());
        out.pch_headers.push("<QSyntaxHighlighter>".to_owned());
        out.extra_includes.push("#include \"cute_code_highlighter.h\"\n".to_owned());
    }
    assert(views(out.qt6_components@) =~= extra_list(
        cpp@,
        seq!["Network"@],
        seq!["Gui"@, "Widgets"@],
    ));
    assert(views(out.qt6_link_libs@) =~= extra_list(
        cpp@,
        seq!["Qt6::Network"@],
        seq!["Qt6::Gui"@, "Qt6::Widgets"@],
    ));
    assert(views(out.pch_headers@) =~= extra_list(
        cpp@,
        seq!["<QtNetwork>"@],
        seq!["<QSyntaxHighlighter>"@],
    ));
    assert(views(out.extra_includes@) =~= extra_list(
        cpp@,
        seq!["#include <QtNetwork>\n"@],
        seq!["#include \"cute_code_highlighter.h\"\n"@],
    ));
    out
}

// ---- what the manifest asks for ------------------------------------------------------

/// One of the strings contains `p`.
pub open spec fn any_contains(v: Seq<Seq<char>>, p: Seq<char>) -> bool {
    exists|i: int| 0 <= i < v.len() && contains(#[trigger] v[i], p)
}

fn any_has(v: &Vec<String>, p: &str) -> (r: bool)
    ensures
        r == any_contains(views(v@), p@),
{
    let mut i: usize = 0;
    while i < v.len()
        invariant
            i <= v@.len(),
            forall|j: int| 0 <= j < i ==> !contains(#[trigger] views(v@)[j], p@),
        decreases v@.len() - i,
    {
        if has(v[i].as_str(), p) {
            assert(contains(views(v@)[i as int], p@));
            return true;
        }
        i += 1;
    }
    false
}

/// The manifest names Kirigami.
pub fn uses_kirigami(manifest: &Manifest) -> (r: bool)
    ensures
        r == any_contains(views(manifest.cmake.find_package@), "Kirigami"@),
{
    any_has(&manifest.cmake.find_package, "Kirigami")
}

/// The manifest names a component of KDE Frameworks.
pub open spec fn needs_kf6(manifest: Manifest) -> bool {
    any_contains(views(manifest.cmake.find_package@), "KF6"@) || any_contains(
        views(manifest.cmake.find_package@),
        "Kirigami"@,
    )
}

/// Whether the manifest names a component of KDE Frameworks.
pub fn uses_kf6(manifest: &Manifest) -> (r: bool)
    ensures
        r == needs_kf6(*manifest),
{
    any_has(&manifest.cmake.find_package, "KF6") || any_has(&manifest.cmake.find_package, "Kirigami")
}

/// What a build needs of the system.
#[derive(Debug, Clone)]
pub struct RequiredDeps {
    pub mode: BuildMode,
    /// Qt components, without the `Qt6::` prefix.
    pub qt6_components: Vec<String>,
    /// The least version of Qt.
    pub qt6_min_version: Option<&'static str>,
    /// Whether the CuteUI runtime is needed.
    pub needs_cute_ui: bool,
    /// Whether KDE Frameworks is needed.
    pub uses_kf6: bool,
    /// The `find_package` arguments of the manifest.
    pub manifest_find_packages: Vec<String>,
    /// The libraries of the manifest.
    pub cute_libraries: Vec<String>,
}

/// `base` with the Qt components that the first `n` arguments name, each once.
pub open spec fn with_manifest_components(
    base: Seq<Seq<char>>,
    args: Seq<Seq<char>>,
    n: int,
) -> Seq<Seq<char>>
    decreases n,
{
    if n <= 0 {
        base
    } else {
        let c = components_of(args[n - 1], "Qt6"@);
        all_added(with_manifest_components(base, args, n - 1), c, c.len() as int)
    }
}

/// The Qt components of a build: those of the mode first, then those of the
/// manifest.
pub open spec fn needed_components(mode: BuildMode, manifest: Manifest) -> Seq<Seq<char>> {
    with_manifest_components(
        words(mode_components(mode)),
        views(manifest.cmake.find_package@),
        manifest.cmake.find_package@.len() as int,
    )
}

/// The least version of Qt for a mode.
pub open spec fn min_version(mode: BuildMode) -> Option<Seq<char>> {
    if mode == BuildMode::CuteUi {
        Some("6.11"@)
    } else {
        None
    }
}

/// An optional literal by its text.
pub open spec fn lit_view(o: Option<&'static str>) -> Option<Seq<char>> {
    match o {
        Some(s) => Some(s@),
        None => None,
    }
}

/// What a build of this mode with this manifest needs of the system.
pub fn required_deps_for(mode: BuildMode, manifest: &Manifest) -> (r: RequiredDeps)
    ensures
        r.mode == mode,
        views(r.qt6_components@) == needed_components(mode, *manifest),
        lit_view(r.qt6_min_version) == min_version(mode),
        r.needs_cute_ui == (mode == BuildMode::CuteUi),
        r.uses_kf6 == needs_kf6(*manifest),
        r.manifest_find_packages@ == manifest.cmake.find_package@,
        r.cute_libraries@ == manifest.cute_libraries.deps@,
{
    let args = &manifest.cmake.find_package;
    let mut components = text_words(qt6_components_for_mode(mode));
    let mut i: usize = 0;
    while i < args.len()
        invariant
            i <= args@.len(),
            views(components@) == with_manifest_components(
                words(mode_components(mode)),
                views(args@),
                i as int,
            ),
        decreases args@.len() - i,
    {
        let c = parse_qt6_components_from_find_package(args[i].as_str());
        assert(views(c@).len() == c@.len());
        components = add_all_missing(components, &c);
        i += 1;
    }
    RequiredDeps {
        mode,
        qt6_components: components,
        qt6_min_version: if mode == BuildMode::CuteUi {
            Some("6.11")
        } else {
            None
        },
        needs_cute_ui: mode == BuildMode::CuteUi,
        uses_kf6: uses_kf6(manifest),
        manifest_find_packages: copy_strings(args),
        cute_libraries: copy_strings(&manifest.cute_libraries.deps),
    }
}

// ---- laws ---------------------------------------------------------------------------

/// Adding to a list keeps what it holds, in place.
pub proof fn lemma_all_added(list: Seq<Seq<char>>, xs: Seq<Seq<char>>, n: int)
    requires
        0 <= n <= xs.len(),
    ensures
        list.len() <= all_added(list, xs, n).len(),
        all_added(list, xs, n).take(list.len() as int) == list,
        forall|i: int| 0 <= i < n ==> all_added(list, xs, n).contains(#[trigger] xs[i]),
    decreases n,
{
    if n <= 0 {
        assert(list.take(list.len() as int) =~= list);
    } else {
        lemma_all_added(list, xs, n - 1);
        let before = all_added(list, xs, n - 1);
        let after = all_added(list, xs, n);
        assert(after.take(list.len() as int) =~= before.take(list.len() as int));
        assert forall|i: int| 0 <= i < n implies after.contains(#[trigger] xs[i]) by {
            if i < n - 1 {
                let k = choose|k: int| 0 <= k < before.len() && before[k] == xs[i];
                assert(after[k] == xs[i]);
            } else if !before.contains(xs[i]) {
                assert(after[before.len() as int] == xs[i]);
            }
        }
    }
}

/// The components of the mode come first among those of a build.
pub proof fn law_mode_components_first(mode: BuildMode, manifest: Manifest)
    ensures
        needed_components(mode, manifest).len() >= words(mode_components(mode)).len(),
        needed_components(mode, manifest).take(words(mode_components(mode)).len() as int) == words(
            mode_components(mode),
        ),
{
    lemma_with_manifest(
        words(mode_components(mode)),
        views(manifest.cmake.find_package@),
        manifest.cmake.find_package@.len() as int,
    );
}

proof fn lemma_with_manifest(base: Seq<Seq<char>>, args: Seq<Seq<char>>, n: int)
    requires
        0 <= n <= args.len(),
    ensures
        with_manifest_components(base, args, n).len() >= base.len(),
        with_manifest_components(base, args, n).take(base.len() as int) == base,
    decreases n,
{
    if n <= 0 {
        assert(base.take(base.len() as int) =~= base);
    } else {
        lemma_with_manifest(base, args, n - 1);
        let before = with_manifest_components(base, args, n - 1);
        let c = components_of(args[n - 1], "Qt6"@);
        lemma_all_added(before, c, c.len() as int);
        let after = with_manifest_components(base, args, n);
        assert(after.take(base.len() as int) =~= after.take(before.len() as int).take(
            base.len() as int,
        ));
    }
}

/// CuteUI text is recognized whatever else occurs in it, and widgets text
/// before QML text.
pub proof fn law_specific_mode_wins(cpp: Seq<char>)
    ensures
        contains(cpp, "cute::ui::App"@) ==> mode_of(cpp) == BuildMode::CuteUi,
        contains(cpp, "QApplication app"@) && !contains(cpp, "cute::ui::App"@) ==> mode_of(cpp)
            == BuildMode::Widgets,
{
}

} // verus!
