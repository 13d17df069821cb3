//! Systems and their package names.

use crate::text::{
    chars_of, contains_string, find_chars, find_from, has_prefix, lemma_views_push, lines, same,
    starts_with, string_of, strip_prefix, text_lines, text_words, trim, trimmed, views,
    without_prefix, words,
};
use vstd::prelude::*;

verus! {

/// The host system, as far as package names depend on it.
#[derive(Debug, Clone, Copy, PartialEq, Eq, Structural)]
pub enum DistroId {
    /// macOS: Homebrew for Qt, Craft for KDE Frameworks.
    MacOS,
    /// openSUSE.
    OpenSuse,
    /// Fedora, and what is like it.
    Fedora,
    /// Debian.
    Debian,
    /// Ubuntu.
    Ubuntu,
    /// Arch Linux, and what is like it.
    Arch,
    /// A Linux that none of these describes.
    UnknownLinux,
    /// Neither macOS nor Linux.
    Other,
}

/// The name of the system in reports.
pub open spec fn distro_label(d: DistroId) -> Seq<char> {
    match d {
        DistroId::MacOS => "macOS (Homebrew)"@,
        DistroId::OpenSuse => "openSUSE (zypper)"@,
        DistroId::Fedora => "Fedora (dnf)"@,
        DistroId::Debian => "Debian (apt)"@,
        DistroId::Ubuntu => "Ubuntu (apt)"@,
        DistroId::Arch => "Arch Linux (pacman)"@,
        DistroId::UnknownLinux => "Linux (unknown distribution)"@,
        DistroId::Other => "unknown OS"@,
    }
}

/// What stands before the package names of an install command.
pub open spec fn install_prefix(d: DistroId) -> Seq<char> {
    match d {
        DistroId::MacOS => ""@,
        DistroId::OpenSuse => "sudo zypper install "@,
        DistroId::Fedora => "sudo dnf install "@,
        DistroId::Debian => "sudo apt install "@,
        DistroId::Ubuntu => "sudo apt install "@,
        DistroId::Arch => "sudo pacman -S "@,
        DistroId::UnknownLinux => ""@,
        DistroId::Other => ""@,
    }
}

/// What stands before the package names of a Homebrew command.
pub open spec fn brew_prefix(d: DistroId) -> Seq<char> {
    match d {
        DistroId::MacOS => "brew install "@,
        _ => ""@,
    }
}

impl DistroId {
    /// The name of the system in reports.
    pub fn label(self) -> (r: &'static str)
        ensures
            r@ == distro_label(self),
    {
        match self {
            DistroId::MacOS => "macOS (Homebrew)",
            DistroId::OpenSuse => "openSUSE (zypper)",
            DistroId::Fedora => "Fedora (dnf)",
            DistroId::Debian => "Debian (apt)",
            DistroId::Ubuntu => "Ubuntu (apt)",
            DistroId::Arch => "Arch Linux (pacman)",
            DistroId::UnknownLinux => "Linux (unknown distribution)",
            DistroId::Other => "unknown OS",
        }
    }

    /// What stands before the package names of an install command.
    pub fn install_command_prefix(self) -> (r: &'static str)
        ensures
            r@ == install_prefix(self),
    {
        match self {
            DistroId::MacOS => "",
            DistroId::OpenSuse => "sudo zypper install ",
            DistroId::Fedora => "sudo dnf install ",
            DistroId::Debian => "sudo apt install ",
            DistroId::Ubuntu => "sudo apt install ",
            DistroId::Arch => "sudo pacman -S ",
            DistroId::UnknownLinux => "",
            DistroId::Other => "",
        }
    }

    /// What stands before the package names of a Homebrew command.
    pub fn brew_install_command_prefix(self) -> (r: &'static str)
        ensures
            r@ == brew_prefix(self),
    {
        match self {
            DistroId::MacOS => "brew install ",
            _ => "",
        }
    }
}

// ---- detection ------------------------------------------------------------------

/// The operating system that the program runs on.
#[derive(Debug, Clone, Copy, PartialEq, Eq, Structural)]
pub enum HostOs {
    MacOs,
    Linux,
    Other,
}

/// `s` without one `c` at its start.
pub open spec fn strip_first(s: Seq<char>, c: char) -> Seq<char> {
    if s.len() > 0 && s[0] == c {
        s.drop_first()
    } else {
        s
    }
}

/// `s` without one `c` at its end.
pub open spec fn strip_last(s: Seq<char>, c: char) -> Seq<char> {
    if s.len() > 0 && s.last() == c {
        s.drop_last()
    } else {
        s
    }
}

/// `s` without surrounding white space and quotes.
pub open spec fn unquoted(s: Seq<char>) -> Seq<char> {
    strip_last(strip_first(strip_last(strip_first(trim(s), '"'), '"'), '\''), '\'')
}

/// `s` without surrounding white space and quotes, of which there may be
/// either kind.
pub fn strip_quotes(s: &str) -> (r: String)
    ensures
        r@ == unquoted(s@),
{
    let v = chars_of(trimmed(s).as_str());
    let n: usize = v.len();
    let mut a: usize = 0;
    let mut b: usize = n;
    assert(v@.subrange(0, n as int) =~= v@);
    if a < b && v[a] == '"' {
        a += 1;
    }
    assert(v@.subrange(a as int, b as int) =~= strip_first(v@, '"'));
    let ghost s1 = v@.subrange(a as int, b as int);
    if a < b && v[b - 1] == '"' {
        b -= 1;
    }
    assert(v@.subrange(a as int, b as int) =~= strip_last(s1, '"'));
    let ghost s2 = v@.subrange(a as int, b as int);
    if a < b && v[a] == '\'' {
        a += 1;
    }
    assert(v@.subrange(a as int, b as int) =~= strip_first(s2, '\''));
    let ghost s3 = v@.subrange(a as int, b as int);
    if a < b && v[b - 1] == '\'' {
        b -= 1;
    }
    assert(v@.subrange(a as int, b as int) =~= strip_last(s3, '\''));
    string_of(&v, a, b)
}

/// The `ID` and the `ID_LIKE` of the first `n` lines; the last of each counts.
pub open spec fn os_fields(ls: Seq<Seq<char>>, n: int) -> (Seq<char>, Seq<char>)
    decreases n,
{
    if n <= 0 {
        (""@, ""@)
    } else {
        let before = os_fields(ls, n - 1);
        let line = trim(ls[n - 1]);
        match strip_prefix(line, "ID="@) {
            Some(rest) => (unquoted(rest), before.1),
            None => match strip_prefix(line, "ID_LIKE="@) {
                Some(rest) => (before.0, unquoted(rest)),
                None => before,
            },
        }
    }
}

/// One of the names is `name`.
pub open spec fn names(tokens: Seq<Seq<char>>, name: Seq<char>) -> bool {
    tokens.contains(name)
}

/// One of the names starts with `prefix`.
pub open spec fn names_start(tokens: Seq<Seq<char>>, prefix: Seq<char>) -> bool {
    exists|i: int| 0 <= i < tokens.len() && starts_with(#[trigger] tokens[i], prefix)
}

/// The system with the name `id` that is like those in `id_like`: the name
/// itself counts among them.
pub open spec fn distro_of(id: Seq<char>, id_like: Seq<char>) -> DistroId {
    let t = words(id_like).push(id);
    if names(t, "ubuntu"@) {
        DistroId::Ubuntu
    } else if names(t, "debian"@) {
        DistroId::Debian
    } else if names_start(t, "opensuse"@) || names(t, "suse"@) {
        DistroId::OpenSuse
    } else if names(t, "fedora"@) || names(t, "rhel"@) || names(t, "centos"@) {
        DistroId::Fedora
    } else if names(t, "arch"@) {
        DistroId::Arch
    } else {
        DistroId::UnknownLinux
    }
}

fn any_starts(v: &Vec<String>, prefix: &str) -> (r: bool)
    ensures
        r == names_start(views(v@), prefix@),
{
    let mut i: usize = 0;
    while i < v.len()
        invariant
            i <= v@.len(),
            forall|j: int| 0 <= j < i ==> !starts_with(#[trigger] views(v@)[j], prefix@),
        decreases v@.len() - i,
    {
        if has_prefix(v[i].as_str(), prefix) {
            assert(starts_with(views(v@)[i as int], prefix@));
            return true;
        }
        i += 1;
    }
    false
}

pub fn classify(id: &str, id_like: &str) -> (r: DistroId)
    ensures
        r == distro_of(id@, id_like@),
{
    let mut t = text_words(id_like);
    let own = id.to_owned();
    proof {
        lemma_views_push(t@, own);
    }
    t.push(own);
    if contains_string(&t, "ubuntu") {
        DistroId::Ubuntu
    } else if contains_string(&t, "debian") {
        DistroId::Debian
    } else if any_starts(&t, "opensuse") || contains_string(&t, "suse") {
        DistroId::OpenSuse
    } else if contains_string(&t, "fedora") || contains_string(&t, "rhel") || contains_string(
        &t,
        "centos",
    ) {
        DistroId::Fedora
    } else if contains_string(&t, "arch") {
        DistroId::Arch
    } else {
        DistroId::UnknownLinux
    }
}

/// What an `os-release` text says.
pub open spec fn os_release_distro(text: Seq<char>) -> DistroId {
    let f = os_fields(lines(text), lines(text).len() as int);
    distro_of(f.0, f.1)
}

/// The system that the `ID` and `ID_LIKE` lines of an `os-release` text
/// describe.
pub fn parse_os_release(text: &str) -> (r: DistroId)
    ensures
        r == os_release_distro(text@),
{
    let ls = text_lines(text);
    let mut id = "".to_owned();
    let mut id_like = "".to_owned();
    let mut i: usize = 0;
    while i < ls.len()
        invariant
            i <= ls@.len(),
            (id@, id_like@) == os_fields(views(ls@), i as int),
        decreases ls@.len() - i,
    {
        let line = trimmed(ls[i].as_str());
        match without_prefix(line.as_str(), "ID=") {
            Some(rest) => {
                id = strip_quotes(rest.as_str());
            },
            None => match without_prefix(line.as_str(), "ID_LIKE=") {
                Some(rest) => {
                    id_like = strip_quotes(rest.as_str());
                },
                None => {},
            },
        }
        i += 1;
    }
    assert(views(ls@).len() == ls@.len());
    classify(id.as_str(), id_like.as_str())
}

/// The host system: on Linux its `os-release` text tells, where it could be
/// read.
pub fn detect_distro(os: HostOs, os_release: Option<&str>) -> (r: DistroId)
    ensures
        r == match os {
            HostOs::MacOs => DistroId::MacOS,
            HostOs::Linux => match os_release {
                Some(text) => os_release_distro(text@),
                None => DistroId::UnknownLinux,
            },
            HostOs::Other => DistroId::Other,
        },
{
    match os {
        HostOs::MacOs => DistroId::MacOS,
        HostOs::Linux => match os_release {
            Some(text) => parse_os_release(text),
            None => DistroId::UnknownLinux,
        },
        HostOs::Other => DistroId::Other,
    }
}

// ---- packages -------------------------------------------------------------------

/// How a Qt component is delivered.
#[derive(Debug, Clone, Copy, PartialEq, Eq)]
pub enum QtComponentKind {
    /// It has a package and a configuration of its own.
    Standard,
    /// It comes with another component.
    PrivateUmbrella { parent: &'static str },
    /// No system packages it yet.
    TechPreview,
}

/// `GuiPrivate` comes with `Gui`, `CanvasPainter` is a preview, and all others
/// are ordinary.
pub open spec fn is_kind_of(component: Seq<char>, k: QtComponentKind) -> bool {
    if component == "GuiPrivate"@ {
        match k {
            QtComponentKind::PrivateUmbrella { parent } => parent@ == "Gui"@,
            _ => false,
        }
    } else if component == "CanvasPainter"@ {
        k is TechPreview
    } else {
        k is Standard
    }
}

/// How the component is delivered.
pub fn qt_component_kind(component: &str) -> (r: QtComponentKind)
    ensures
        is_kind_of(component@, r),
{
    if same(component, "GuiPrivate") {
        QtComponentKind::PrivateUmbrella { parent: "Gui" }
    } else if same(component, "CanvasPainter") {
        QtComponentKind::TechPreview
    } else {
        QtComponentKind::Standard
    }
}

/// The package of a Qt component.
pub open spec fn qt_package(component: Seq<char>, distro: DistroId) -> Option<Seq<char>> {
    if component == "Core"@ || component == "Gui"@ || component == "Widgets"@ || component == "Network"@ {
        match distro {
            DistroId::MacOS => Some("qt"@),
            DistroId::OpenSuse => Some("qt6-base-devel"@),
            DistroId::Fedora => Some("qt6-qtbase-devel"@),
            DistroId::Debian => Some("qt6-base-dev"@),
            DistroId::Ubuntu => Some("qt6-base-dev"@),
            DistroId::Arch => Some("qt6-base"@),
            _ => None,
        }
    } else if component == "Qml"@ || component == "Quick"@ || component == "QuickControls2"@ {
        match distro {
            DistroId::MacOS => Some("qt"@),
            DistroId::OpenSuse => Some("qt6-declarative-devel"@),
            DistroId::Fedora => Some("qt6-qtdeclarative-devel"@),
            DistroId::Debian => Some("qt6-declarative-dev"@),
            DistroId::Ubuntu => Some("qt6-declarative-dev"@),
            DistroId::Arch => Some("qt6-declarative"@),
            _ => None,
        }
    } else if component == "HttpServer"@ {
        match distro {
            DistroId::MacOS => Some("qt"@),
            DistroId::OpenSuse => Some("qt6-httpserver-devel"@),
            DistroId::Fedora => Some("qt6-qthttpserver-devel"@),
            DistroId::Debian => Some("qt6-httpserver-dev"@),
            DistroId::Ubuntu => Some("qt6-httpserver-dev"@),
            DistroId::Arch => Some("qt6-httpserver"@),
            _ => None,
        }
    } else if component == "Charts"@ {
        match distro {
            DistroId::MacOS => Some("qt"@),
            DistroId::OpenSuse => Some("qt6-charts-devel"@),
            DistroId::Fedora => Some("qt6-qtcharts-devel"@),
            DistroId::Debian => Some("qt6-charts-dev"@),
            DistroId::Ubuntu => Some("qt6-charts-dev"@),
            DistroId::Arch => Some("qt6-charts"@),
            _ => None,
        }
    } else if component == "Svg"@ {
        match distro {
            DistroId::MacOS => Some("qt"@),
            DistroId::OpenSuse => Some("qt6-svg-devel"@),
            DistroId::Fedora => Some("qt6-qtsvg-devel"@),
            DistroId::Debian => Some("qt6-svg-dev"@),
            DistroId::Ubuntu => Some("qt6-svg-dev"@),
            DistroId::Arch => Some("qt6-svg"@),
            _ => None,
        }
    } else if component == "Multimedia"@ {
        match distro {
            DistroId::MacOS => Some("qt"@),
            DistroId::OpenSuse => Some("qt6-multimedia-devel"@),
            DistroId::Fedora => Some("qt6-qtmultimedia-devel"@),
            DistroId::Debian => Some("qt6-multimedia-dev"@),
            DistroId::Ubuntu => Some("qt6-multimedia-dev"@),
            DistroId::Arch => Some("qt6-multimedia"@),
            _ => None,
        }
    } else {
        None
    }
}

fn find_qt_package(component: &str, distro: DistroId) -> (r: Option<&'static str>)
    ensures
        match r {
            Some(p) => qt_package(component@, distro) == Some(p@),
            None => qt_package(component@, distro) is None,
        },
{
    if same(component, "Core") || same(component, "Gui") || same(component, "Widgets") || same(component, "Network") {
        match distro {
            DistroId::MacOS => Some("qt"),
            DistroId::OpenSuse => Some("qt6-base-devel"),
            DistroId::Fedora => Some("qt6-qtbase-devel"),
            DistroId::Debian => Some("qt6-base-dev"),
            DistroId::Ubuntu => Some("qt6-base-dev"),
            DistroId::Arch => Some("qt6-base"),
            _ => None,
        }
    } else if same(component, "Qml") || same(component, "Quick") || same(component, "QuickControls2") {
        match distro {
            DistroId::MacOS => Some("qt"),
            DistroId::OpenSuse => Some("qt6-declarative-devel"),
            DistroId::Fedora => Some("qt6-qtdeclarative-devel"),
            DistroId::Debian => Some("qt6-declarative-dev"),
            DistroId::Ubuntu => Some("qt6-declarative-dev"),
            DistroId::Arch => Some("qt6-declarative"),
            _ => None,
        }
    } else if same(component, "HttpServer") {
        match distro {
            DistroId::MacOS => Some("qt"),
            DistroId::OpenSuse => Some("qt6-httpserver-devel"),
            DistroId::Fedora => Some("qt6-qthttpserver-devel"),
            DistroId::Debian => Some("qt6-httpserver-dev"),
            DistroId::Ubuntu => Some("qt6-httpserver-dev"),
            DistroId::Arch => Some("qt6-httpserver"),
            _ => None,
        }
    } else if same(component, "Charts") {
        match distro {
            DistroId::MacOS => Some("qt"),
            DistroId::OpenSuse => Some("qt6-charts-devel"),
            DistroId::Fedora => Some("qt6-qtcharts-devel"),
            DistroId::Debian => Some("qt6-charts-dev"),
            DistroId::Ubuntu => Some("qt6-charts-dev"),
            DistroId::Arch => Some("qt6-charts"),
            _ => None,
        }
    } else if same(component, "Svg") {
        match distro {
            DistroId::MacOS => Some("qt"),
            DistroId::OpenSuse => Some("qt6-svg-devel"),
            DistroId::Fedora => Some("qt6-qtsvg-devel"),
            DistroId::Debian => Some("qt6-svg-dev"),
            DistroId::Ubuntu => Some("qt6-svg-dev"),
            DistroId::Arch => Some("qt6-svg"),
            _ => None,
        }
    } else if same(component, "Multimedia") {
        match distro {
            DistroId::MacOS => Some("qt"),
            DistroId::OpenSuse => Some("qt6-multimedia-devel"),
            DistroId::Fedora => Some("qt6-qtmultimedia-devel"),
            DistroId::Debian => Some("qt6-multimedia-dev"),
            DistroId::Ubuntu => Some("qt6-multimedia-dev"),
            DistroId::Arch => Some("qt6-multimedia"),
            _ => None,
        }
    } else {
        None
    }
}

/// The packages of a Qt component, where the system has them.
pub fn qt_packages_for(component: &str, distro: DistroId) -> (r: Option<Vec<&'static str>>)
    ensures
        match r {
            Some(v) => v@.len() == 1 && qt_package(component@, distro) == Some(v@[0]@),
            None => qt_package(component@, distro) is None,
        },
{
    match find_qt_package(component, distro) {
        Some(p) => {
            let mut v: Vec<&'static str> = Vec::new();
            v.push(p);
            Some(v)
        },
        None => None,
    }
}

/// The package of a KDE Frameworks component. Homebrew has none of them.
pub open spec fn kf6_package(component: Seq<char>, distro: DistroId) -> Option<Seq<char>> {
    if component == "Kirigami"@ {
        match distro {
            DistroId::OpenSuse => Some("kf6-kirigami-devel"@),
            DistroId::Fedora => Some("kf6-kirigami2-devel"@),
            DistroId::Debian => Some("libkf6kirigami-dev"@),
            DistroId::Ubuntu => Some("libkf6kirigami-dev"@),
            DistroId::Arch => Some("kirigami"@),
            _ => None,
        }
    } else if component == "CoreAddons"@ {
        match distro {
            DistroId::OpenSuse => Some("kf6-kcoreaddons-devel"@),
            DistroId::Fedora => Some("kf6-kcoreaddons-devel"@),
            DistroId::Debian => Some("libkf6coreaddons-dev"@),
            DistroId::Ubuntu => Some("libkf6coreaddons-dev"@),
            DistroId::Arch => Some("kcoreaddons"@),
            _ => None,
        }
    } else if component == "I18n"@ {
        match distro {
            DistroId::OpenSuse => Some("kf6-ki18n-devel"@),
            DistroId::Fedora => Some("kf6-ki18n-devel"@),
            DistroId::Debian => Some("libkf6i18n-dev"@),
            DistroId::Ubuntu => Some("libkf6i18n-dev"@),
            DistroId::Arch => Some("ki18n"@),
            _ => None,
        }
    } else {
        None
    }
}

fn find_kf6_package(component: &str, distro: DistroId) -> (r: Option<&'static str>)
    ensures
        match r {
            Some(p) => kf6_package(component@, distro) == Some(p@),
            None => kf6_package(component@, distro) is None,
        },
{
    if same(component, "Kirigami") {
        match distro {
            DistroId::OpenSuse => Some("kf6-kirigami-devel"),
            DistroId::Fedora => Some("kf6-kirigami2-devel"),
            DistroId::Debian => Some("libkf6kirigami-dev"),
            DistroId::Ubuntu => Some("libkf6kirigami-dev"),
            DistroId::Arch => Some("kirigami"),
            _ => None,
        }
    } else if same(component, "CoreAddons") {
        match distro {
            DistroId::OpenSuse => Some("kf6-kcoreaddons-devel"),
            DistroId::Fedora => Some("kf6-kcoreaddons-devel"),
            DistroId::Debian => Some("libkf6coreaddons-dev"),
            DistroId::Ubuntu => Some("libkf6coreaddons-dev"),
            DistroId::Arch => Some("kcoreaddons"),
            _ => None,
        }
    } else if same(component, "I18n") {
        match distro {
            DistroId::OpenSuse => Some("kf6-ki18n-devel"),
            DistroId::Fedora => Some("kf6-ki18n-devel"),
            DistroId::Debian => Some("libkf6i18n-dev"),
            DistroId::Ubuntu => Some("libkf6i18n-dev"),
            DistroId::Arch => Some("ki18n"),
            _ => None,
        }
    } else {
        None
    }
}

/// The packages of a KDE Frameworks component, where the system has them.
pub fn kf6_packages_for(component: &str, distro: DistroId) -> (r: Option<Vec<&'static str>>)
    ensures
        match r {
            Some(v) => v@.len() == 1 && kf6_package(component@, distro) == Some(v@[0]@),
            None => kf6_package(component@, distro) is None,
        },
{
    match find_kf6_package(component, distro) {
        Some(p) => {
            let mut v: Vec<&'static str> = Vec::new();
            v.push(p);
            Some(v)
        },
        None => None,
    }
}

// ---- find_package arguments --------------------------------------------------------

/// The words of a `find_package` call that are no component names.
pub open spec fn is_keyword(w: Seq<char>) -> bool {
    ||| w == "REQUIRED"@
    ||| w == "QUIET"@
    ||| w == "EXACT"@
    ||| w == "OPTIONAL_COMPONENTS"@
    ||| w == "MODULE"@
    ||| w == "CONFIG"@
    ||| w == "NO_MODULE"@
    ||| w == "GLOBAL"@
    ||| w == "NO_DEFAULT_PATH"@
}

fn word_is_keyword(w: &str) -> (r: bool)
    ensures
        r == is_keyword(w@),
{
    same(w, "REQUIRED")
        || same(w, "QUIET")
        || same(w, "EXACT")
        || same(w, "OPTIONAL_COMPONENTS")
        || same(w, "MODULE")
        || same(w, "CONFIG")
        || same(w, "NO_MODULE")
        || same(w, "GLOBAL")
        || same(w, "NO_DEFAULT_PATH")
}

/// The first `n` words that are no keywords.
pub open spec fn component_words(ws: Seq<Seq<char>>, n: int) -> Seq<Seq<char>>
    decreases n,
{
    if n <= 0 {
        Seq::empty()
    } else if is_keyword(ws[n - 1]) {
        component_words(ws, n - 1)
    } else {
        component_words(ws, n - 1).push(ws[n - 1])
    }
}

/// The components that a `find_package` argument names of a package: those
/// after `COMPONENTS` where the argument starts with the package's name, or the
/// rest of the first word where it starts with that name.
pub open spec fn components_of(arg: Seq<char>, package: Seq<char>) -> Seq<Seq<char>> {
    let t = trim(arg);
    let ws = words(t);
    let first = if ws.len() > 0 {
        ws[0]
    } else {
        ""@
    };
    if first == package {
        match find_from(t, "COMPONENTS"@, 0) {
            Some(i) => {
                let after = words(t.subrange(i + "COMPONENTS"@.len(), t.len() as int));
                component_words(after, after.len() as int)
            },
            None => Seq::empty(),
        }
    } else {
        match strip_prefix(first, package) {
            Some(rest) => if rest.len() > 0 {
                seq![rest]
            } else {
                Seq::empty()
            },
            None => Seq::empty(),
        }
    }
}

pub fn parse_components_with_prefix(arg: &str, package: &str) -> (r: Vec<String>)
    ensures
        views(r@) == components_of(arg@, package@),
{
    let t = trimmed(arg);
    let ws = text_words(t.as_str());
    assert(views(ws@).len() == ws@.len());
    let first = if ws.len() > 0 {
        ws[0].clone()
    } else {
        "".to_owned()
    };
    let mut out: Vec<String> = Vec::new();
    assert(views(out@) =~= Seq::<Seq<char>>::empty());
    if same(first.as_str(), package) {
        let v = chars_of(t.as_str());
        let key = chars_of("COMPONENTS");
        match find_chars(&v, &key, 0) {
            Some(i) => {
                let n: usize = v.len();
                let after = text_words(string_of(&v, i + key.len(), n).as_str());
                let mut k: usize = 0;
                while k < after.len()
                    invariant
                        k <= after@.len(),
                        views(out@) == component_words(views(after@), k as int),
                    decreases after@.len() - k,
                {
                    if !word_is_keyword(after[k].as_str()) {
                        proof {
                            lemma_views_push(out@, after@[k as int]);
                        }
                        out.push(after[k].clone());
                    }
                    k += 1;
                }
                assert(views(after@).len() == after@.len());
                return out;
            },
            None => {
                return out;
            },
        }
    }
    match without_prefix(first.as_str(), package) {
        Some(rest) => {
            if !rest.as_str().is_empty() {
                let ghost text = rest@;
                proof {
                    lemma_views_push(out@, rest);
                }
                out.push(rest);
                assert(views(out@) =~= seq![text]);
            }
        },
        None => {},
    }
    out
}

/// The KDE Frameworks components that a `find_package` argument names.
pub fn parse_kf6_components_from_find_package(arg: &str) -> (r: Vec<String>)
    ensures
        views(r@) == components_of(arg@, "KF6"@),
{
    parse_components_with_prefix(arg, "KF6")
}

/// The Qt components that a `find_package` argument names.
pub fn parse_qt6_components_from_find_package(arg: &str) -> (r: Vec<String>)
    ensures
        views(r@) == components_of(arg@, "Qt6"@),
{
    parse_components_with_prefix(arg, "Qt6")
}

// ---- laws ---------------------------------------------------------------------------

/// The system's own name counts like one that it is like, and the order of
/// those names does not matter: two descriptions with the same names are the
/// same system.
pub proof fn law_distro_by_names(id1: Seq<char>, like1: Seq<char>, id2: Seq<char>, like2: Seq<char>)
    requires
        forall|x: Seq<char>| #[trigger]
            words(like1).push(id1).contains(x) <==> words(like2).push(id2).contains(x),
    ensures
        distro_of(id1, like1) == distro_of(id2, like2),
{
    let a = words(like1).push(id1);
    let b = words(like2).push(id2);
    assert forall|x: Seq<char>| #[trigger] b.contains(x) == a.contains(x) by {
        assert(a.contains(x) <==> b.contains(x));
    }
    if names_start(a, "opensuse"@) {
        let i = choose|i: int| 0 <= i < a.len() && starts_with(#[trigger] a[i], "opensuse"@);
        assert(a.contains(a[i]));
        assert(b.contains(a[i]));
        let j = choose|j: int| 0 <= j < b.len() && b[j] == a[i];
        assert(starts_with(b[j], "opensuse"@));
    }
    if names_start(b, "opensuse"@) {
        let i = choose|i: int| 0 <= i < b.len() && starts_with(#[trigger] b[i], "opensuse"@);
        assert(b.contains(b[i]));
        assert(a.contains(b[i]));
        let j = choose|j: int| 0 <= j < a.len() && a[j] == b[i];
        assert(starts_with(a[j], "opensuse"@));
    }
}

/// On macOS every Qt component that has a package comes from one formula.
pub proof fn law_macos_umbrella(component: Seq<char>)
    requires
        qt_package(component, DistroId::MacOS) is Some,
    ensures
        qt_package(component, DistroId::MacOS) == Some("qt"@),
{
}

/// No component of KDE Frameworks has a package on macOS, nor on a system that
/// is not known.
pub proof fn law_kf6_has_no_macos_package(component: Seq<char>)
    ensures
        kf6_package(component, DistroId::MacOS) is None,
        kf6_package(component, DistroId::UnknownLinux) is None,
        kf6_package(component, DistroId::Other) is None,
{
}

/// A name as it stands between quotes: without quotes of its own, and without
/// white space around it.
pub open spec fn is_bare_name(v: Seq<char>) -> bool {
    &&& trim(v) == v
    &&& !v.contains('"')
    &&& !v.contains('\'')
}

/// `q` is the name `v` as it may be written: bare, or in quotes of either kind.
pub open spec fn is_written(q: Seq<char>, v: Seq<char>) -> bool {
    ||| q == v
    ||| q == seq!['"'] + v + seq!['"']
    ||| q == seq!['\''] + v + seq!['\'']
}

/// The line sets `key` to `v`.
pub open spec fn sets(line: Seq<char>, key: Seq<char>, v: Seq<char>) -> bool {
    exists|q: Seq<char>| is_written(q, v) && trim(line) == #[trigger] (key + q)
}

/// Line `i` sets `key` to `v`, and no other line sets it. Where no line does,
/// `i` is below zero and `v` is empty.
pub open spec fn only_line_sets(
    ls: Seq<Seq<char>>,
    key: Seq<char>,
    v: Seq<char>,
    i: int,
) -> bool {
    &&& i < ls.len()
    &&& i < 0 ==> v.len() == 0
    &&& i >= 0 ==> sets(ls[i], key, v)
    &&& forall|k: int| 0 <= k < ls.len() && k != i ==> !starts_with(trim(#[trigger] ls[k]), key)
}

proof fn lemma_unquoted(q: Seq<char>, v: Seq<char>)
    requires
        is_bare_name(v),
        is_written(q, v),
    ensures
        unquoted(q) == v,
{
    if q == v {
        if v.len() > 0 {
            assert(v.contains(v[0]));
            assert(v.contains(v.last()));
        }
    } else {
        let inner = q.drop_first();
        assert(inner.drop_last() =~= v);
        assert(trim(q) == q);
        if v.len() > 0 {
            assert(v.contains(v[0]));
            assert(v.contains(v.last()));
        }
        assert(q.drop_first().drop_last() =~= v);
    }
}

proof fn lemma_os_id(ls: Seq<Seq<char>>, v: Seq<char>, i: int, n: int)
    requires
        0 <= n <= ls.len(),
        is_bare_name(v),
        only_line_sets(ls, "ID="@, v, i),
    ensures
        os_fields(ls, n).0 == if 0 <= i < n {
            v
        } else {
            ""@
        },
    decreases n,
{
    if n > 0 {
        lemma_os_id(ls, v, i, n - 1);
        if n - 1 == i {
            let q = choose|q: Seq<char>| is_written(q, v) && trim(ls[i]) == #[trigger] ("ID="@ + q);
            let line = trim(ls[i]);
            assert(line.subrange(0, "ID="@.len() as int) =~= "ID="@);
            assert(line.subrange("ID="@.len() as int, line.len() as int) =~= q);
            lemma_unquoted(q, v);
        } else {
            assert(!starts_with(trim(ls[n - 1]), "ID="@));
        }
    }
}

proof fn lemma_os_like(ls: Seq<Seq<char>>, w: Seq<char>, j: int, n: int)
    requires
        0 <= n <= ls.len(),
        is_bare_name(w),
        only_line_sets(ls, "ID_LIKE="@, w, j),
    ensures
        os_fields(ls, n).1 == if 0 <= j < n {
            w
        } else {
            ""@
        },
    decreases n,
{
    if n > 0 {
        lemma_os_like(ls, w, j, n - 1);
        if n - 1 == j {
            let q = choose|q: Seq<char>|
                is_written(q, w) && trim(ls[j]) == #[trigger] ("ID_LIKE="@ + q);
            let line = trim(ls[j]);
            reveal_strlit("ID=");
            reveal_strlit("ID_LIKE=");
            assert(line[2] == '_');
            if starts_with(line, "ID="@) {
                assert(line.subrange(0, 3)[2] == "ID="@[2]);
            }
            assert(line.subrange(0, "ID_LIKE="@.len() as int) =~= "ID_LIKE="@);
            assert(line.subrange("ID_LIKE="@.len() as int, line.len() as int) =~= q);
            lemma_unquoted(q, w);
        } else {
            assert(!starts_with(trim(ls[n - 1]), "ID_LIKE="@));
        }
    }
}

/// Only the names that `ID` and `ID_LIKE` are set to count: how they are
/// quoted, which of the two lines comes first, and what other lines say has no
/// influence.
pub proof fn law_only_the_names_count(
    text: Seq<char>,
    v: Seq<char>,
    w: Seq<char>,
    i: int,
    j: int,
)
    requires
        is_bare_name(v),
        is_bare_name(w),
        only_line_sets(lines(text), "ID="@, v, i),
        only_line_sets(lines(text), "ID_LIKE="@, w, j),
    ensures
        os_release_distro(text) == distro_of(v, w),
{
    let ls = lines(text);
    reveal_strlit("");
    lemma_os_id(ls, v, i, ls.len() as int);
    lemma_os_like(ls, w, j, ls.len() as int);
    assert(i < 0 ==> v =~= ""@);
    assert(j < 0 ==> w =~= ""@);
}

/// A text that sets neither says nothing of the system.
pub proof fn law_no_names_no_distro(text: Seq<char>)
    requires
        forall|k: int|
            0 <= k < lines(text).len() ==> !starts_with(trim(#[trigger] lines(text)[k]), "ID="@)
                && !starts_with(trim(lines(text)[k]), "ID_LIKE="@),
    ensures
        os_release_distro(text) == DistroId::UnknownLinux,
{
    let e = Seq::<char>::empty();
    law_only_the_names_count(text, e, e, -1, -1);
    assert(words(e) =~= Seq::<Seq<char>>::empty());
    let t = words(e).push(e);
    reveal_strlit("ubuntu");
    reveal_strlit("debian");
    reveal_strlit("opensuse");
    reveal_strlit("suse");
    reveal_strlit("fedora");
    reveal_strlit("rhel");
    reveal_strlit("centos");
    reveal_strlit("arch");
    assert forall|x: Seq<char>| #[trigger] t.contains(x) implies x.len() == 0 by {
        let k = choose|k: int| 0 <= k < t.len() && t[k] == x;
        assert(k == 0);
    }
    assert(!names_start(t, "opensuse"@)) by {
        assert forall|k: int| 0 <= k < t.len() implies !starts_with(#[trigger] t[k], "opensuse"@) by {
            assert(t[k].len() == 0);
        }
    }
}

} // verus!
