//! What holds of tools: predefined variables, references to variables, agents,
//! editors, bundles and the output of commands.

use crate::build_laws::lemma_contains_add;
use crate::bundle::{path_entry, plist_text, rpaths};
use crate::cmake::{combined_output, config_template_text, configure_failure, names_missing_package};
use crate::install::{
    any_named, skill_files, skill_of, version_from, version_in, SkillTarget,
};
use crate::manifest::Manifest;
use crate::meta_laws::lemma_ends_contains;
use crate::modes::needs_kf6;
use crate::packages::HostOs;
use crate::plan_laws::lemma_longer_contains;
use crate::project_laws::lemma_pushed;
use crate::sources::path_join;
use crate::text::{
    contains, is_space, join, strip_prefix, trim, trim_end, trim_end_char, trim_start,
    trim_start_char,
};
use crate::typesystem::{expanded, expanded_from, platform_vars, unknown_var};
use vstd::prelude::*;

verus! {

// ---- variables ---------------------------------------------------------------------

/// The modules of Qt whose headers have a variable, in the order of the
/// variables.
pub open spec fn header_modules() -> Seq<Seq<char>> {
    seq!["QtCore"@, "QtGui"@, "QtWidgets"@, "QtCharts"@, "QtQuick"@, "QtQml"@, "QtSvg"@, "QtSvgWidgets"@, "QtNetwork"@, "QtMultimedia"@]
}

proof fn lemma_headers_core()
    ensures
        "/opt/homebrew/lib/QtCore.framework/Headers"@ == "/opt/homebrew/lib/"@ + "QtCore"@ + ".framework/Headers"@,
        "/usr/include/qt6/QtCore"@ == "/usr/include/qt6/"@ + "QtCore"@,
{
    reveal_strlit("/opt/homebrew/lib/QtCore.framework/Headers");
    reveal_strlit("/usr/include/qt6/QtCore");
    reveal_strlit("/opt/homebrew/lib/");
    reveal_strlit("/usr/include/qt6/");
    reveal_strlit("QtCore");
    reveal_strlit(".framework/Headers");
    assert("/opt/homebrew/lib/QtCore.framework/Headers"@ =~= "/opt/homebrew/lib/"@ + "QtCore"@ + ".framework/Headers"@);
    assert("/usr/include/qt6/QtCore"@ =~= "/usr/include/qt6/"@ + "QtCore"@);
}

proof fn lemma_headers_gui()
    ensures
        "/opt/homebrew/lib/QtGui.framework/Headers"@ == "/opt/homebrew/lib/"@ + "QtGui"@ + ".framework/Headers"@,
        "/usr/include/qt6/QtGui"@ == "/usr/include/qt6/"@ + "QtGui"@,
{
    reveal_strlit("/opt/homebrew/lib/QtGui.framework/Headers");
    reveal_strlit("/usr/include/qt6/QtGui");
    reveal_strlit("/opt/homebrew/lib/");
    reveal_strlit("/usr/include/qt6/");
    reveal_strlit("QtGui");
    reveal_strlit(".framework/Headers");
    assert("/opt/homebrew/lib/QtGui.framework/Headers"@ =~= "/opt/homebrew/lib/"@ + "QtGui"@ + ".framework/Headers"@);
    assert("/usr/include/qt6/QtGui"@ =~= "/usr/include/qt6/"@ + "QtGui"@);
}

proof fn lemma_headers_widgets()
    ensures
        "/opt/homebrew/lib/QtWidgets.framework/Headers"@ == "/opt/homebrew/lib/"@ + "QtWidgets"@ + ".framework/Headers"@,
        "/usr/include/qt6/QtWidgets"@ == "/usr/include/qt6/"@ + "QtWidgets"@,
{
    reveal_strlit("/opt/homebrew/lib/QtWidgets.framework/Headers");
    reveal_strlit("/usr/include/qt6/QtWidgets");
    reveal_strlit("/opt/homebrew/lib/");
    reveal_strlit("/usr/include/qt6/");
    reveal_strlit("QtWidgets");
    reveal_strlit(".framework/Headers");
    assert("/opt/homebrew/lib/QtWidgets.framework/Headers"@ =~= "/opt/homebrew/lib/"@ + "QtWidgets"@ + ".framework/Headers"@);
    assert("/usr/include/qt6/QtWidgets"@ =~= "/usr/include/qt6/"@ + "QtWidgets"@);
}

proof fn lemma_headers_charts()
    ensures
        "/opt/homebrew/lib/QtCharts.framework/Headers"@ == "/opt/homebrew/lib/"@ + "QtCharts"@ + ".framework/Headers"@,
        "/usr/include/qt6/QtCharts"@ == "/usr/include/qt6/"@ + "QtCharts"@,
{
    reveal_strlit("/opt/homebrew/lib/QtCharts.framework/Headers");
    reveal_strlit("/usr/include/qt6/QtCharts");
    reveal_strlit("/opt/homebrew/lib/");
    reveal_strlit("/usr/include/qt6/");
    reveal_strlit("QtCharts");
    reveal_strlit(".framework/Headers");
    assert("/opt/homebrew/lib/QtCharts.framework/Headers"@ =~= "/opt/homebrew/lib/"@ + "QtCharts"@ + ".framework/Headers"@);
    assert("/usr/include/qt6/QtCharts"@ =~= "/usr/include/qt6/"@ + "QtCharts"@);
}

proof fn lemma_headers_quick()
    ensures
        "/opt/homebrew/lib/QtQuick.framework/Headers"@ == "/opt/homebrew/lib/"@ + "QtQuick"@ + ".framework/Headers"@,
        "/usr/include/qt6/QtQuick"@ == "/usr/include/qt6/"@ + "QtQuick"@,
{
    reveal_strlit("/opt/homebrew/lib/QtQuick.framework/Headers");
    reveal_strlit("/usr/include/qt6/QtQuick");
    reveal_strlit("/opt/homebrew/lib/");
    reveal_strlit("/usr/include/qt6/");
    reveal_strlit("QtQuick");
    reveal_strlit(".framework/Headers");
    assert("/opt/homebrew/lib/QtQuick.framework/Headers"@ =~= "/opt/homebrew/lib/"@ + "QtQuick"@ + ".framework/Headers"@);
    assert("/usr/include/qt6/QtQuick"@ =~= "/usr/include/qt6/"@ + "QtQuick"@);
}

proof fn lemma_headers_qml()
    ensures
        "/opt/homebrew/lib/QtQml.framework/Headers"@ == "/opt/homebrew/lib/"@ + "QtQml"@ + ".framework/Headers"@,
        "/usr/include/qt6/QtQml"@ == "/usr/include/qt6/"@ + "QtQml"@,
{
    reveal_strlit("/opt/homebrew/lib/QtQml.framework/Headers");
    reveal_strlit("/usr/include/qt6/QtQml");
    reveal_strlit("/opt/homebrew/lib/");
    reveal_strlit("/usr/include/qt6/");
    reveal_strlit("QtQml");
    reveal_strlit(".framework/Headers");
    assert("/opt/homebrew/lib/QtQml.framework/Headers"@ =~= "/opt/homebrew/lib/"@ + "QtQml"@ + ".framework/Headers"@);
    assert("/usr/include/qt6/QtQml"@ =~= "/usr/include/qt6/"@ + "QtQml"@);
}

proof fn lemma_headers_svg()
    ensures
        "/opt/homebrew/lib/QtSvg.framework/Headers"@ == "/opt/homebrew/lib/"@ + "QtSvg"@ + ".framework/Headers"@,
        "/usr/include/qt6/QtSvg"@ == "/usr/include/qt6/"@ + "QtSvg"@,
{
    reveal_strlit("/opt/homebrew/lib/QtSvg.framework/Headers");
    reveal_strlit("/usr/include/qt6/QtSvg");
    reveal_strlit("/opt/homebrew/lib/");
    reveal_strlit("/usr/include/qt6/");
    reveal_strlit("QtSvg");
    reveal_strlit(".framework/Headers");
    assert("/opt/homebrew/lib/QtSvg.framework/Headers"@ =~= "/opt/homebrew/lib/"@ + "QtSvg"@ + ".framework/Headers"@);
    assert("/usr/include/qt6/QtSvg"@ =~= "/usr/include/qt6/"@ + "QtSvg"@);
}

proof fn lemma_headers_svgwidgets()
    ensures
        "/opt/homebrew/lib/QtSvgWidgets.framework/Headers"@ == "/opt/homebrew/lib/"@ + "QtSvgWidgets"@ + ".framework/Headers"@,
        "/usr/include/qt6/QtSvgWidgets"@ == "/usr/include/qt6/"@ + "QtSvgWidgets"@,
{
    reveal_strlit("/opt/homebrew/lib/QtSvgWidgets.framework/Headers");
    reveal_strlit("/usr/include/qt6/QtSvgWidgets");
    reveal_strlit("/opt/homebrew/lib/");
    reveal_strlit("/usr/include/qt6/");
    reveal_strlit("QtSvgWidgets");
    reveal_strlit(".framework/Headers");
    assert("/opt/homebrew/lib/QtSvgWidgets.framework/Headers"@ =~= "/opt/homebrew/lib/"@ + "QtSvgWidgets"@ + ".framework/Headers"@);
    assert("/usr/include/qt6/QtSvgWidgets"@ =~= "/usr/include/qt6/"@ + "QtSvgWidgets"@);
}

proof fn lemma_headers_network()
    ensures
        "/opt/homebrew/lib/QtNetwork.framework/Headers"@ == "/opt/homebrew/lib/"@ + "QtNetwork"@ + ".framework/Headers"@,
        "/usr/include/qt6/QtNetwork"@ == "/usr/include/qt6/"@ + "QtNetwork"@,
{
    reveal_strlit("/opt/homebrew/lib/QtNetwork.framework/Headers");
    reveal_strlit("/usr/include/qt6/QtNetwork");
    reveal_strlit("/opt/homebrew/lib/");
    reveal_strlit("/usr/include/qt6/");
    reveal_strlit("QtNetwork");
    reveal_strlit(".framework/Headers");
    assert("/opt/homebrew/lib/QtNetwork.framework/Headers"@ =~= "/opt/homebrew/lib/"@ + "QtNetwork"@ + ".framework/Headers"@);
    assert("/usr/include/qt6/QtNetwork"@ =~= "/usr/include/qt6/"@ + "QtNetwork"@);
}

proof fn lemma_headers_multimedia()
    ensures
        "/opt/homebrew/lib/QtMultimedia.framework/Headers"@ == "/opt/homebrew/lib/"@ + "QtMultimedia"@ + ".framework/Headers"@,
        "/usr/include/qt6/QtMultimedia"@ == "/usr/include/qt6/"@ + "QtMultimedia"@,
{
    reveal_strlit("/opt/homebrew/lib/QtMultimedia.framework/Headers");
    reveal_strlit("/usr/include/qt6/QtMultimedia");
    reveal_strlit("/opt/homebrew/lib/");
    reveal_strlit("/usr/include/qt6/");
    reveal_strlit("QtMultimedia");
    reveal_strlit(".framework/Headers");
    assert("/opt/homebrew/lib/QtMultimedia.framework/Headers"@ =~= "/opt/homebrew/lib/"@ + "QtMultimedia"@ + ".framework/Headers"@);
    assert("/usr/include/qt6/QtMultimedia"@ =~= "/usr/include/qt6/"@ + "QtMultimedia"@);
}

/// The same variables are predefined on macOS and on Linux, and each leads to the
/// headers of the same module: to those in its framework on macOS, and to its
/// directory on Linux.
pub proof fn law_variables_lead_to_the_same_modules(i: int)
    requires
        0 <= i < header_modules().len(),
    ensures
        ({
            let mac = platform_vars(HostOs::MacOs);
            let linux = platform_vars(HostOs::Linux);
            let module = header_modules()[i];
            &&& mac.len() == header_modules().len() + 1
            &&& linux.len() == mac.len()
            &&& mac[i + 1].0 == linux[i + 1].0
            &&& mac[i + 1].1 == "/opt/homebrew/lib/"@ + module + ".framework/Headers"@
            &&& linux[i + 1].1 == "/usr/include/qt6/"@ + module
            &&& mac[0] == ("qt_frameworks"@, "/opt/homebrew/lib"@)
            &&& linux[0] == ("qt_frameworks"@, "/usr/include/qt6"@)
        }),
{
    let mac = platform_vars(HostOs::MacOs);
    let linux = platform_vars(HostOs::Linux);
    assert(i == 0 || i == 1 || i == 2 || i == 3 || i == 4 || i == 5 || i == 6 || i == 7 || i == 8 || i == 9);
    lemma_headers_core();
    lemma_headers_gui();
    lemma_headers_widgets();
    lemma_headers_charts();
    lemma_headers_quick();
    lemma_headers_qml();
    lemma_headers_svg();
    lemma_headers_svgwidgets();
    lemma_headers_network();
    lemma_headers_multimedia();
}

// ---- references --------------------------------------------------------------------

proof fn lemma_plain_rest(s: Seq<char>, vars: Map<Seq<char>, Seq<char>>, i: int)
    requires
        0 <= i <= s.len(),
        forall|j: int| i <= j < s.len() ==> s[j] != '$',
    ensures
        expanded_from(s, vars, i) == Ok::<Seq<char>, Seq<char>>(s.skip(i)),
    decreases s.len() - i,
{
    if i < s.len() {
        lemma_plain_rest(s, vars, i + 1);
        assert(seq![s[i]] + s.skip(i + 1) =~= s.skip(i));
    } else {
        assert(s.skip(i) =~= Seq::<char>::empty());
    }
}

proof fn lemma_plain_front(s: Seq<char>, vars: Map<Seq<char>, Seq<char>>, i: int, k: int)
    requires
        0 <= i <= k <= s.len(),
        forall|j: int| i <= j < k ==> s[j] != '$',
        k < s.len(),
    ensures
        match expanded_from(s, vars, k) {
            Ok(t) => expanded_from(s, vars, i) == Ok::<Seq<char>, Seq<char>>(s.subrange(i, k) + t),
            Err(m) => expanded_from(s, vars, i) == Err::<Seq<char>, Seq<char>>(m),
        },
    decreases k - i,
{
    if i < k {
        lemma_plain_front(s, vars, i + 1, k);
        if let Ok(t) = expanded_from(s, vars, k) {
            assert(seq![s[i]] + (s.subrange(i + 1, k) + t) =~= s.subrange(i, k) + t);
        }
    } else if let Ok(t) = expanded_from(s, vars, k) {
        assert(s.subrange(i, k) + t =~= t);
    }
}

/// A reference gives way to the value of its variable, and the text around it
/// stays; a reference to no variable is refused by its name.
pub proof fn law_references_give_way_to_values(
    a: Seq<char>,
    name: Seq<char>,
    b: Seq<char>,
    vars: Map<Seq<char>, Seq<char>>,
)
    requires
        !a.contains('$'),
        !b.contains('$'),
        !name.contains('}'),
    ensures
        vars.contains_key(name) ==> expanded(a + seq!['$', '{'] + name + seq!['}'] + b, vars) == Ok::<
            Seq<char>,
            Seq<char>,
        >(a + vars[name] + b),
        !vars.contains_key(name) ==> expanded(a + seq!['$', '{'] + name + seq!['}'] + b, vars)
            == Err::<Seq<char>, Seq<char>>(unknown_var(name)),
{
    let s = a + seq!['$', '{'] + name + seq!['}'] + b;
    let k = a.len() as int;
    let n = name.len() as int;
    assert(s[k] == '$' && s[k + 1] == '{');
    let rest = s.subrange(k + 2, s.len() as int);
    assert(rest =~= name + seq!['}'] + b);
    assert forall|j: int| 0 <= j < n implies rest[j] != '}' by {
        assert(rest[j] == name[j]);
        assert(name.contains(name[j]));
    }
    crate::text::lemma_index_of_unique(rest, '}', n);
    assert(rest.subrange(0, n) =~= name);
    assert forall|j: int| 0 <= j < k implies s[j] != '$' by {
        assert(s[j] == a[j]);
        assert(a.contains(a[j]));
    }
    assert forall|j: int| k + 3 + n <= j < s.len() implies s[j] != '$' by {
        assert(s[j] == b[j - (k + 3 + n)]);
        assert(b.contains(b[j - (k + 3 + n)]));
    }
    lemma_plain_rest(s, vars, k + 3 + n);
    assert(s.skip(k + 3 + n) =~= b);
    lemma_plain_front(s, vars, 0, k);
    assert(s.subrange(0, k) =~= a);
    if vars.contains_key(name) {
        assert(a + (vars[name] + b) =~= a + vars[name] + b);
    }
}

// ---- agents and editors ------------------------------------------------------------

/// An agent is told where it is asked for; where none is asked for, where it is
/// in use. The file for it stands in its directory below the home directory and
/// holds its head and the text.
pub proof fn law_agents_are_told(
    home: Seq<char>,
    body: Seq<char>,
    v: Seq<SkillTarget>,
    i: int,
    n: int,
)
    requires
        0 <= i < n <= v.len(),
        v[i].named || (v[i].detected && forall|k: int|
            0 <= k < v.len() ==> !(#[trigger] v[k]).named),
    ensures
        skill_files(home, body, v, n).contains(
            (
                v[i].agent@,
                path_join(home, v[i].dir@),
                path_join(path_join(home, v[i].dir@), v[i].file@),
                v[i].head@ + body,
            ),
        ),
    decreases n,
{
    let x = skill_of(home, body, v[i]);
    let before = skill_files(home, body, v, n - 1);
    if v[i].named {
        assert(any_named(v));
    }
    if i == n - 1 {
        lemma_pushed(before, x, x);
    } else {
        law_agents_are_told(home, body, v, i, n - 1);
        lemma_pushed(before, skill_of(home, body, v[n - 1]), x);
    }
}

/// Where an agent is asked for, no other agent is told.
pub proof fn law_no_other_agents_are_told(
    home: Seq<char>,
    body: Seq<char>,
    v: Seq<SkillTarget>,
    n: int,
)
    requires
        0 <= n <= v.len(),
        exists|i: int| 0 <= i < v.len() && (#[trigger] v[i]).named,
        forall|i: int| 0 <= i < n ==> !(#[trigger] v[i]).named,
    ensures
        skill_files(home, body, v, n).len() == 0,
    decreases n,
{
    if n > 0 {
        law_no_other_agents_are_told(home, body, v, n - 1);
        assert(!v[n - 1].named);
        assert(any_named(v));
    }
}

/// The version of an extension is what stands in quotes behind `"version"`,
/// whether a comma follows or not.
pub proof fn law_extension_versions_are_read(v: Seq<char>)
    requires
        v.len() > 0,
        v[0] != '"',
        v.last() != '"',
        !v.contains(','),
    ensures
        version_in(seq![':', ' ', '"'] + v + seq!['"', ',']) == v,
        version_in(seq![':', ' ', '"'] + v + seq!['"']) == v,
{
    assert(is_space(' '));
    assert(!is_space('"'));
    assert(!is_space(','));
    let q = seq!['"'] + v + seq!['"'];
    lemma_quoted(v);
    let with = seq![':', ' ', '"'] + v + seq!['"', ','];
    let w1 = seq![' '] + q + seq![','];
    assert(with.drop_first() =~= w1);
    assert(w1[0] == ' ');
    assert(trim_start_char(with, ':') == trim_start_char(w1, ':'));
    assert(trim_start_char(w1, ':') == w1);
    let w2 = q + seq![','];
    assert(w1.drop_first() =~= w2);
    assert(w2[0] == '"');
    assert(trim_start(w1) == trim_start(w2));
    assert(trim_start(w2) == w2);
    assert(w2.last() == ',');
    assert(trim_end(w2) == w2);
    assert(w2.drop_last() =~= q);
    assert(trim_end_char(w2, ',') == trim_end_char(q, ','));
    assert(q.last() == '"');
    assert(trim_end_char(q, ',') == q);
    let without = seq![':', ' ', '"'] + v + seq!['"'];
    let u1 = seq![' '] + q;
    assert(without.drop_first() =~= u1);
    assert(u1[0] == ' ');
    assert(trim_start_char(without, ':') == trim_start_char(u1, ':'));
    assert(trim_start_char(u1, ':') == u1);
    assert(u1.drop_first() =~= q);
    assert(q[0] == '"');
    assert(trim_start(u1) == trim_start(q));
    assert(trim_start(q) == q);
    assert(trim_end(q) == q);
}

proof fn lemma_quoted(v: Seq<char>)
    requires
        v.len() > 0,
        v[0] != '"',
        v.last() != '"',
    ensures
        trim_end_char(trim_start_char(seq!['"'] + v + seq!['"'], '"'), '"') == v,
{
    let q = seq!['"'] + v + seq!['"'];
    let r = v + seq!['"'];
    assert(q.drop_first() =~= r);
    assert(r[0] == v[0]);
    assert(trim_start_char(q, '"') == trim_start_char(r, '"'));
    assert(trim_start_char(r, '"') == r);
    assert(r.last() == '"');
    assert(r.drop_last() =~= v);
    assert(trim_end_char(r, '"') == trim_end_char(v, '"'));
}

/// The first line that gives a version decides; without one it is `0.0.0`.
pub proof fn law_first_version_is_taken(v: Seq<Seq<char>>, i: int, k: int)
    requires
        0 <= i <= k <= v.len(),
        forall|j: int|
            i <= j < k ==> strip_prefix(trim(#[trigger] v[j]), "\"version\""@) is None,
        k < v.len() ==> strip_prefix(trim(v[k]), "\"version\""@) is Some,
    ensures
        k < v.len() ==> version_from(v, i) == version_in(
            strip_prefix(trim(v[k]), "\"version\""@)->0,
        ),
        k == v.len() ==> version_from(v, i) == "0.0.0"@,
    decreases k - i,
{
    if i < k {
        assert(strip_prefix(trim(v[i]), "\"version\""@) is None);
        law_first_version_is_taken(v, i + 1, k);
    }
}

// ---- bundles -----------------------------------------------------------------------

/// The libraries of a bundle are found in Craft where the manifest needs KDE
/// Frameworks and Craft is there, and else in the Qt of Homebrew.
pub proof fn law_bundles_find_their_libraries(
    manifest: Manifest,
    craft: Option<Seq<char>>,
    brew: Seq<char>,
)
    ensures
        needs_kf6(manifest) && craft is Some ==> rpaths(manifest, craft, brew) =~= seq![
            craft->0 + "/lib"@,
        ],
        !needs_kf6(manifest) || craft is None ==> rpaths(manifest, craft, brew) =~= seq![
            brew + "/opt/qtbase/lib"@,
            brew + "/opt/qtdeclarative/lib"@,
        ],
{
}

/// The description of a bundle names its program, as what is started, as what
/// it is called and behind `org.cute.`, and holds its environment.
#[verifier::rlimit(30)]
pub proof fn law_bundles_name_their_program(stem: Seq<char>, env: Seq<char>)
    ensures
        contains(
            plist_text(stem, env),
            "    <key>CFBundleExecutable</key>\n"@ + "    <string>"@ + stem + "</string>\n"@,
        ),
        contains(
            plist_text(stem, env),
            "    <key>CFBundleIdentifier</key>\n"@ + "    <string>org.cute."@ + stem
                + "</string>\n"@,
        ),
        contains(
            plist_text(stem, env),
            "    <key>CFBundleName</key>\n"@ + "    <string>"@ + stem + "</string>\n"@,
        ),
        contains(plist_text(stem, env), env),
{
    let p1 = "<?xml version=\"1.0\" encoding=\"UTF-8\"?>\n"@
        + "<!DOCTYPE plist PUBLIC \"-//Apple//DTD PLIST 1.0//EN\" \"http://www.apple.com/DTDs/PropertyList-1.0.dtd\">\n"@
        + "<plist version=\"1.0\">\n"@ + "<dict>\n"@;
    let p2 = p1 + "    <key>CFBundleExecutable</key>\n"@ + "    <string>"@ + stem + "</string>\n"@;
    let p3 = p2 + "    <key>CFBundleIdentifier</key>\n"@ + "    <string>org.cute."@ + stem
        + "</string>\n"@;
    let q1 = "    <key>CFBundleExecutable</key>\n"@ + "    <string>"@ + stem + "</string>\n"@;
    let q2 = "    <key>CFBundleIdentifier</key>\n"@ + "    <string>org.cute."@ + stem
        + "</string>\n"@;
    let q3 = "    <key>CFBundleName</key>\n"@ + "    <string>"@ + stem + "</string>\n"@;
    assert(p2 =~= p1 + q1);
    assert(p3 =~= p2 + q2);
    assert(p3 + "    <key>CFBundleName</key>\n"@ + "    <string>"@ + stem + "</string>\n"@ =~= p3
        + q3);
    lemma_ends_contains(p1, q1);
    lemma_ends_contains(p2, q2);
    lemma_ends_contains(p3, q3);
    crate::build_laws::lemma_contains_self(env);
    lemma_longer_contains();
}

/// A list of paths is handed on joined by colons, under its key; an empty one is
/// left out.
pub proof fn law_environment_lists_paths(s: Seq<char>, key: Seq<char>, paths: Seq<Seq<char>>)
    ensures
        paths.len() == 0 ==> path_entry(s, key, paths) == s,
        paths.len() > 0 ==> path_entry(s, key, paths) == s + ("        <key>"@ + key + "</key>\n"@
            + "        <string>"@ + join(paths, ":"@) + "</string>\n"@),
{
    if paths.len() > 0 {
        assert(path_entry(s, key, paths) =~= s + ("        <key>"@ + key + "</key>\n"@
            + "        <string>"@ + join(paths, ":"@) + "</string>\n"@));
    }
}

/// The package of a library reads the targets of that library.
pub proof fn law_packages_read_their_targets(name: Seq<char>, description: Seq<char>)
    ensures
        contains(
            config_template_text(name, description),
            "include(\"${CMAKE_CURRENT_LIST_DIR}/"@ + name + "Targets.cmake\")\n"@,
        ),
        contains(
            config_template_text(name, description),
            crate::cmake::summary_comment(description),
        ),
{
    let p = "@PACKAGE_INIT@\n"@ + "\n"@ + crate::cmake::summary_comment(description)
        + "include(CMakeFindDependencyMacro)\n"@ + "find_dependency(Qt6 COMPONENTS Core Gui)\n"@
        + "\n"@;
    let q = "include(\"${CMAKE_CURRENT_LIST_DIR}/"@ + name + "Targets.cmake\")\n"@;
    assert(config_template_text(name, description) =~= p + q);
    lemma_ends_contains(p, q);
    crate::build_laws::lemma_contains_self(crate::cmake::summary_comment(description));
    lemma_longer_contains();
}

// ---- output ------------------------------------------------------------------------

/// Each output of a command that is not empty is shown behind its heading, and
/// one that is empty is not.
pub proof fn law_outputs_are_shown(out: Seq<char>, err: Seq<char>)
    ensures
        out.len() > 0 ==> contains(combined_output(out, err), "--- stdout ---\n"@ + out),
        err.len() > 0 ==> contains(combined_output(out, err), "--- stderr ---\n"@ + err),
        out.len() == 0 && err.len() == 0 ==> combined_output(out, err) == ""@,
        err.len() == 0 && out.len() > 0 ==> combined_output(out, err) == "--- stdout ---\n"@ + out,
{
    let a = "--- stdout ---\n"@ + out;
    let b = "--- stderr ---\n"@ + err;
    crate::build_laws::lemma_contains_self(a);
    if out.len() == 0 {
        reveal_strlit("");
        assert(""@ + "--- stderr ---\n"@ + err =~= ""@ + b);
        lemma_ends_contains(""@, b);
    } else {
        assert(a.len() > 0);
        assert(a + "\n"@ + "--- stderr ---\n"@ + err =~= a + "\n"@ + b);
        lemma_ends_contains(a + "\n"@, b);
        lemma_contains_add(a, "\n"@, a);
        lemma_contains_add(a + "\n"@, b, a);
    }
}

/// A failure that names a missing package ends with the hint to ask the doctor,
/// and any other is shown as it is.
pub proof fn law_missing_packages_lead_to_the_doctor(out: Seq<char>, err: Seq<char>)
    ensures
        names_missing_package(combined_output(out, err)) ==> configure_failure(out, err)
            == combined_output(out, err)
            + "\nhint: run `cute doctor` to diagnose missing dependencies."@,
        !names_missing_package(combined_output(out, err)) ==> configure_failure(out, err)
            == combined_output(out, err),
        contains(combined_output(out, err), "Could NOT find Qt6"@) ==> names_missing_package(
            combined_output(out, err),
        ),
        contains(combined_output(out, err), "Could NOT find KF6"@) ==> names_missing_package(
            combined_output(out, err),
        ),
        contains(combined_output(out, err), "Could NOT find CuteUI"@) ==> names_missing_package(
            combined_output(out, err),
        ),
{
}

} // verus!
