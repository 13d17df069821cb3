//! Where things are installed: decisions over what was found on the host.

use crate::packages::HostOs;
use crate::sources::{join_path, path_join};
use crate::text::{
    ascii_lowercase, chars_of, contains_string, index_of, index_of_char, lines, opt_view, same,
    starts_with, string_of, text_lines, to_ascii_lower, trim, trimmed, views, has_prefix,
};
use vstd::prelude::*;
use vstd::string::*;

verus! {

// ---- prefixes -------------------------------------------------------------------------

/// A place, and whether it has what is looked for.
#[derive(Debug, Clone)]
pub struct Probe {
    pub path: String,
    pub found: bool,
}

/// The first place at or after `i` that has it.
pub open spec fn first_found(v: Seq<Probe>, i: int) -> Option<Seq<char>>
    decreases v.len() - i,
{
    if i < 0 || i >= v.len() {
        None
    } else if v[i].found {
        Some(v[i].path@)
    } else {
        first_found(v, i + 1)
    }
}

fn pick_found(v: &Vec<Probe>) -> (r: Option<String>)
    ensures
        opt_view(r) == first_found(v@, 0),
{
    let mut i: usize = 0;
    while i < v.len()
        invariant
            i <= v@.len(),
            first_found(v@, 0) == first_found(v@, i as int),
        decreases v@.len() - i,
    {
        if v[i].found {
            return Some(v[i].path.clone());
        }
        i += 1;
    }
    None
}

/// What a `qmake` said when it was asked for its prefix.
#[derive(Debug, Clone)]
pub struct QmakeAnswer {
    pub success: bool,
    pub stdout: String,
    /// Whether the directory that it named exists.
    pub exists: bool,
}

/// The first answer at or after `i` that names a directory.
pub open spec fn first_answer(v: Seq<QmakeAnswer>, i: int) -> Option<Seq<char>>
    decreases v.len() - i,
{
    if i < 0 || i >= v.len() {
        None
    } else if v[i].success && trim(v[i].stdout@).len() > 0 && v[i].exists {
        Some(trim(v[i].stdout@))
    } else {
        first_answer(v, i + 1)
    }
}

/// The text, where there is one that is not empty.
pub open spec fn non_empty(o: Option<String>) -> Option<Seq<char>> {
    match o {
        Some(s) => if s@.len() > 0 {
            Some(s@)
        } else {
            None
        },
        None => None,
    }
}

fn pick_non_empty(o: &Option<String>) -> (r: Option<String>)
    ensures
        opt_view(r) == non_empty(*o),
{
    match o {
        Some(s) => if s.as_str().is_empty() {
            None
        } else {
            Some(s.clone())
        },
        None => None,
    }
}

/// The prefix of Qt: what `QT_DIR` says, what `CMAKE_PREFIX_PATH` says, what a
/// `qmake` says, or the first of the usual places.
pub open spec fn qt_prefix(
    qt_dir: Option<String>,
    cmake_prefix_path: Option<String>,
    answers: Seq<QmakeAnswer>,
    places: Seq<Probe>,
) -> Option<Seq<char>> {
    if non_empty(qt_dir) is Some {
        non_empty(qt_dir)
    } else if non_empty(cmake_prefix_path) is Some {
        non_empty(cmake_prefix_path)
    } else if first_answer(answers, 0) is Some {
        first_answer(answers, 0)
    } else {
        first_found(places, 0)
    }
}

/// The prefix of Qt.
pub fn find_qt_prefix(
    qt_dir: &Option<String>,
    cmake_prefix_path: &Option<String>,
    answers: &Vec<QmakeAnswer>,
    places: &Vec<Probe>,
) -> (r: Option<String>)
    ensures
        opt_view(r) == qt_prefix(*qt_dir, *cmake_prefix_path, answers@, places@),
{
    match pick_non_empty(qt_dir) {
        Some(p) => {
            return Some(p);
        },
        None => {},
    }
    match pick_non_empty(cmake_prefix_path) {
        Some(p) => {
            return Some(p);
        },
        None => {},
    }
    let mut i: usize = 0;
    while i < answers.len()
        invariant
            i <= answers@.len(),
            non_empty(*qt_dir) is None,
            non_empty(*cmake_prefix_path) is None,
            first_answer(answers@, 0) == first_answer(answers@, i as int),
        decreases answers@.len() - i,
    {
        let s = trimmed(answers[i].stdout.as_str());
        if answers[i].success && !s.as_str().is_empty() && answers[i].exists {
            return Some(s);
        }
        i += 1;
    }
    pick_found(places)
}

/// The usual places of Qt.
pub open spec fn qt_places(os: HostOs) -> Seq<Seq<char>> {
    match os {
        HostOs::MacOs => seq![
            "/opt/homebrew/opt/qt"@,
            "/opt/homebrew/opt/qt6"@,
            "/usr/local/opt/qt"@,
            "/usr/local/opt/qt6"@,
        ],
        HostOs::Linux => seq![
            "/usr/lib/qt6"@,
            "/usr/lib/x86_64-linux-gnu/qt6"@,
            "/usr/lib64/qt6"@,
            "/usr/local/Qt-6"@,
            "/opt/Qt6"@,
        ],
        HostOs::Other => Seq::empty(),
    }
}

/// The usual places of Qt.
pub fn qt_candidates(os: HostOs) -> (r: Vec<String>)
    ensures
        views(r@) == qt_places(os),
{
    let mut v: Vec<String> = Vec::new();
    match os {
        HostOs::MacOs => {
            v.push("/opt/homebrew/opt/qt".to_owned());
            v.push("/opt/homebrew/opt/qt6".to_owned());
            v.push("/usr/local/opt/qt".to_owned());
            v.push("/usr/local/opt/qt6".to_owned());
        },
        HostOs::Linux => {
            v.push("/usr/lib/qt6".to_owned());
            v.push("/usr/lib/x86_64-linux-gnu/qt6".to_owned());
            v.push("/usr/lib64/qt6".to_owned());
            v.push("/usr/local/Qt-6".to_owned());
            v.push("/opt/Qt6".to_owned());
        },
        HostOs::Other => {},
    }
    assert(views(v@) =~= qt_places(os));
    v
}

/// The prefix of Craft: the first place that has a KDE Frameworks
/// configuration.
pub fn find_craft_prefix(places: &Vec<Probe>) -> (r: Option<String>)
    ensures
        opt_view(r) == first_found(places@, 0),
{
    pick_found(places)
}

/// The places of Craft: what `CRAFT_ROOT` says, and its directory in the home
/// directory.
pub fn craft_candidates(craft_root: &Option<String>, home: &Option<String>) -> (r: Vec<String>)
    ensures
        views(r@) == (match *craft_root {
            Some(p) => seq![p@],
            None => Seq::empty(),
        }) + (match *home {
            Some(h) => seq![path_join(h@, "CraftRoot"@)],
            None => Seq::empty(),
        }),
{
    let mut v: Vec<String> = Vec::new();
    match craft_root {
        Some(p) => {
            v.push(p.clone());
        },
        None => {},
    }
    match home {
        Some(h) => {
            v.push(join_path(h.as_str(), "CraftRoot"));
        },
        None => {},
    }
    assert(views(v@) =~= (match *craft_root {
        Some(p) => seq![p@],
        None => Seq::empty(),
    }) + (match *home {
        Some(h) => seq![path_join(h@, "CraftRoot"@)],
        None => Seq::empty(),
    }));
    v
}

// ---- package configurations ----------------------------------------------------------------

/// The configuration file of a package below a prefix, in the library
/// directory `lib`.
pub open spec fn config_file(prefix: Seq<char>, lib: Seq<char>, package: Seq<char>) -> Seq<char> {
    path_join(prefix, lib + "/cmake/"@ + package + "/"@ + package + "Config.cmake"@)
}

/// The package is configured below the prefix: its configuration file is
/// present, in either library directory.
pub open spec fn is_configured(
    prefix: Seq<char>,
    package: Seq<char>,
    present: Seq<Seq<char>>,
) -> bool {
    present.contains(config_file(prefix, "lib"@, package)) || present.contains(
        config_file(prefix, "lib64"@, package),
    )
}

/// The configuration files that a package may have below a prefix.
pub fn cmake_config_files(prefix: &str, package: &str) -> (r: Vec<String>)
    ensures
        views(r@) == seq![
            config_file(prefix@, "lib"@, package@),
            config_file(prefix@, "lib64"@, package@),
        ],
{
    let mut v: Vec<String> = Vec::new();
    let a = "lib".to_owned().concat("/cmake/").concat(package).concat("/").concat(package).concat(
        "Config.cmake",
    );
    let b = "lib64".to_owned().concat("/cmake/").concat(package).concat("/").concat(package).concat(
        "Config.cmake",
    );
    v.push(join_path(prefix, a.as_str()));
    v.push(join_path(prefix, b.as_str()));
    assert(views(v@) =~= seq![
        config_file(prefix@, "lib"@, package@),
        config_file(prefix@, "lib64"@, package@),
    ]);
    v
}

/// Whether CMake would find the package below the prefix, where `present` lists
/// the files that exist.
pub fn has_cmake_config(prefix: &str, package: &str, present: &Vec<String>) -> (r: bool)
    ensures
        r == is_configured(prefix@, package@, views(present@)),
{
    let files = cmake_config_files(prefix, package);
    assert(views(files@).len() == files@.len());
    assert(views(files@)[0] == files@[0]@ && views(files@)[1] == files@[1]@);
    contains_string(present, files[0].as_str()) || contains_string(present, files[1].as_str())
}

/// Whether a KDE Frameworks package is configured below the prefix: one of
/// three suffices.
pub fn has_kf6_config(prefix: &str, present: &Vec<String>) -> (r: bool)
    ensures
        r == (is_configured(prefix@, "KF6"@, views(present@)) || is_configured(
            prefix@,
            "KF6Kirigami"@,
            views(present@),
        ) || is_configured(prefix@, "KF6CoreAddons"@, views(present@))),
{
    has_cmake_config(prefix, "KF6", present) || has_cmake_config(prefix, "KF6Kirigami", present)
        || has_cmake_config(prefix, "KF6CoreAddons", present)
}

/// Whether the CuteUI runtime is configured below the prefix.
pub fn has_cute_ui_config(prefix: &str, present: &Vec<String>) -> (r: bool)
    ensures
        r == is_configured(prefix@, "CuteUI"@, views(present@)),
{
    has_cmake_config(prefix, "CuteUI", present)
}

/// Whether a library is configured below the prefix.
pub fn has_cute_library_config(prefix: &str, name: &str, present: &Vec<String>) -> (r: bool)
    ensures
        r == is_configured(prefix@, name@, views(present@)),
{
    has_cmake_config(prefix, name, present)
}

// ---- installed versions ----------------------------------------------------------------------

/// An install in a cache.
#[derive(Debug, Clone)]
pub struct CacheEntry {
    pub path: String,
    /// Its configuration for CMake is there.
    pub configured: bool,
    /// When it was last modified, where that can be told.
    pub modified: Option<u64>,
}

/// The newest of the first `n` installs that are configured; of two that are
/// equally new the first. Where the age of one cannot be told, there is no
/// answer.
pub open spec fn newest_of(v: Seq<CacheEntry>, n: int) -> Option<Option<(u64, Seq<char>)>>
    decreases n,
{
    if n <= 0 {
        Some(None)
    } else {
        let e = v[n - 1];
        match newest_of(v, n - 1) {
            Some(best) => if !e.configured {
                Some(best)
            } else {
                match e.modified {
                    Some(m) => match best {
                        Some(b) => if b.0 >= m {
                            Some(best)
                        } else {
                            Some(Some((m, e.path@)))
                        },
                        None => Some(Some((m, e.path@))),
                    },
                    None => None,
                }
            },
            None => None,
        }
    }
}

/// The newest install of a cache.
pub open spec fn newest_install(v: Seq<CacheEntry>) -> Option<Seq<char>> {
    match newest_of(v, v.len() as int) {
        Some(Some(b)) => Some(b.1),
        _ => None,
    }
}

proof fn lemma_no_answer(v: Seq<CacheEntry>, a: int, b: int)
    requires
        0 <= a <= b,
        newest_of(v, a) is None,
    ensures
        newest_of(v, b) is None,
    decreases b - a,
{
    if a < b {
        lemma_no_answer(v, a, b - 1);
    }
}

/// The newest install of the runtime in the cache.
pub fn find_cute_ui_under_cache(v: &Vec<CacheEntry>) -> (r: Option<String>)
    ensures
        opt_view(r) == newest_install(v@),
{
    let mut best: Option<(u64, String)> = None;
    let mut i: usize = 0;
    while i < v.len()
        invariant
            i <= v@.len(),
            newest_of(v@, i as int) == Some(
                match best {
                    Some(b) => Some((b.0, b.1@)),
                    None => None,
                },
            ),
        decreases v@.len() - i,
    {
        if v[i].configured {
            match v[i].modified {
                Some(m) => {
                    let newer = match &best {
                        Some(b) => b.0 < m,
                        None => true,
                    };
                    if newer {
                        best = Some((m, v[i].path.clone()));
                    }
                },
                None => {
                    proof {
                        lemma_no_answer(v@, i + 1, v@.len() as int);
                    }
                    return None;
                },
            }
        }
        i += 1;
    }
    match best {
        Some(b) => Some(b.1),
        None => None,
    }
}

/// Where the versions of a library are.
pub open spec fn library_cache(home: Seq<char>, name: Seq<char>) -> Seq<char> {
    path_join(path_join(home, ".cache/cute/libraries"@), name)
}

/// Where the versions of a library are.
pub fn library_cache_root(home: &str, name: &str) -> (r: String)
    ensures
        r@ == library_cache(home@, name@),
{
    let base = join_path(home, ".cache/cute/libraries");
    join_path(base.as_str(), name)
}

/// The library directory of an install: `lib` where it is there, and else
/// `lib64`.
pub fn library_dir(prefix: &str, has_lib: bool) -> (r: String)
    ensures
        r@ == path_join(
            prefix@,
            if has_lib {
                "lib"@
            } else {
                "lib64"@
            },
        ),
{
    if has_lib {
        join_path(prefix, "lib")
    } else {
        join_path(prefix, "lib64")
    }
}

/// The install of a library: the newest of its versions for this host.
pub fn find_cute_library_prefix(versions: &Vec<CacheEntry>) -> (r: Option<String>)
    ensures
        opt_view(r) == newest_install(versions@),
{
    find_cute_ui_under_cache(versions)
}

/// The prefix of the CuteUI runtime: what `CUTE_UI_DIR` says where the runtime
/// is there, else the newest install of the cache, else the one of the source
/// tree.
pub fn find_cute_ui_prefix(
    cute_ui_dir: &Option<String>,
    dir_is_configured: bool,
    cached: &Vec<CacheEntry>,
    dev_install: &Option<String>,
) -> (r: Option<String>)
    ensures
        if non_empty(*cute_ui_dir) is Some && dir_is_configured {
            opt_view(r) == non_empty(*cute_ui_dir)
        } else if newest_install(cached@) is Some {
            opt_view(r) == newest_install(cached@)
        } else {
            opt_view(r) == opt_view(*dev_install)
        },
{
    match pick_non_empty(cute_ui_dir) {
        Some(p) => {
            if dir_is_configured {
                return Some(p);
            }
        },
        None => {},
    }
    match find_cute_ui_under_cache(cached) {
        Some(p) => Some(p),
        None => match dev_install {
            Some(p) => Some(p.clone()),
            None => None,
        },
    }
}

// ---- the version of Qt --------------------------------------------------------------------------

/// The text between the first two quotes of `s`.
pub open spec fn quoted(s: Seq<char>) -> Option<Seq<char>> {
    let q1 = index_of(s, '"');
    if 0 <= q1 < s.len() {
        let rest = s.subrange(q1 + 1, s.len() as int);
        let q2 = index_of(rest, '"');
        if 0 <= q2 < rest.len() {
            Some(rest.subrange(0, q2))
        } else {
            None
        }
    } else {
        None
    }
}

/// The line sets the package version, in whatever case.
pub open spec fn sets_version(line: Seq<char>) -> bool {
    starts_with(to_ascii_lower(trim(line)), "set(package_version"@)
}

/// The version that the first line at or after `i` that sets one gives.
pub open spec fn version_in(ls: Seq<Seq<char>>, i: int) -> Option<Seq<char>>
    decreases ls.len() - i,
{
    if i < 0 || i >= ls.len() {
        None
    } else if sets_version(ls[i]) {
        let t = trim(ls[i]);
        quoted(t.subrange("set(package_version"@.len() as int, t.len() as int))
    } else {
        version_in(ls, i + 1)
    }
}

fn quoted_text(s: &str) -> (r: Option<String>)
    ensures
        opt_view(r) == quoted(s@),
{
    let v = chars_of(s);
    let n: usize = v.len();
    assert(v@.subrange(0, n as int) =~= v@);
    let q1: usize = index_of_char(&v, '"', 0);
    if q1 == n {
        return None;
    }
    let q2: usize = index_of_char(&v, '"', q1 + 1);
    if q2 == n {
        return None;
    }
    assert(v@.subrange(q1 + 1, n as int).subrange(0, q2 - (q1 + 1)) =~= v@.subrange(
        q1 + 1,
        q2 as int,
    ));
    Some(string_of(&v, q1 + 1, q2))
}

/// The version that a CMake version file sets: the first line that sets one
/// decides.
pub fn parse_qt_version_cmake(text: &str) -> (r: Option<String>)
    ensures
        opt_view(r) == version_in(lines(text@), 0),
{
    let ls = text_lines(text);
    assert(views(ls@).len() == ls@.len());
    let p = chars_of("set(package_version");
    let mut i: usize = 0;
    while i < ls.len()
        invariant
            i <= ls@.len(),
            views(ls@).len() == ls@.len(),
            views(ls@) == lines(text@),
            p@ == "set(package_version"@,
            version_in(views(ls@), 0) == version_in(views(ls@), i as int),
        decreases ls@.len() - i,
    {
        let t = trimmed(ls[i].as_str());
        let lower = ascii_lowercase(t.as_str());
        if has_prefix(lower.as_str(), "set(package_version") {
            let v = chars_of(t.as_str());
            let n: usize = v.len();
            assert(lower@.len() == v@.len());
            return quoted_text(string_of(&v, p.len(), n).as_str());
        }
        i += 1;
    }
    None
}

/// The version files of Qt below a prefix, in the order in which they are
/// asked: Homebrew's nested installs come first.
pub open spec fn version_files(prefix: Seq<char>) -> Seq<Seq<char>> {
    base_files(path_join(prefix, "opt/qt"@)) + base_files(path_join(prefix, "opt/qt6"@))
        + base_files(prefix)
}

/// The version files below one base.
pub open spec fn base_files(base: Seq<char>) -> Seq<Seq<char>> {
    seq![
        path_join(base, "lib/cmake/Qt6Core/Qt6CoreConfigVersionImpl.cmake"@),
        path_join(base, "lib/cmake/Qt6Core/Qt6CoreConfigVersion.cmake"@),
        path_join(base, "lib64/cmake/Qt6Core/Qt6CoreConfigVersionImpl.cmake"@),
        path_join(base, "lib64/cmake/Qt6Core/Qt6CoreConfigVersion.cmake"@),
    ]
}

fn list_base_files(base: &str) -> (r: Vec<String>)
    ensures
        views(r@) == base_files(base@),
{
    let mut v: Vec<String> = Vec::new();
    v.push(join_path(base, "lib/cmake/Qt6Core/Qt6CoreConfigVersionImpl.cmake"));
    v.push(join_path(base, "lib/cmake/Qt6Core/Qt6CoreConfigVersion.cmake"));
    v.push(join_path(base, "lib64/cmake/Qt6Core/Qt6CoreConfigVersionImpl.cmake"));
    v.push(join_path(base, "lib64/cmake/Qt6Core/Qt6CoreConfigVersion.cmake"));
    assert(views(v@) =~= base_files(base@));
    v
}

/// The version files of Qt below a prefix.
pub fn qt_version_files(prefix: &str) -> (r: Vec<String>)
    ensures
        views(r@) == version_files(prefix@),
{
    let a = list_base_files(join_path(prefix, "opt/qt").as_str());
    let b = list_base_files(join_path(prefix, "opt/qt6").as_str());
    crate::text::chain(crate::text::chain(a, b), list_base_files(prefix))
}

/// The version of the first readable text at or after `i` that sets one.
pub open spec fn first_version(texts: Seq<Option<String>>, i: int) -> Option<Seq<char>>
    decreases texts.len() - i,
{
    if i < 0 || i >= texts.len() {
        None
    } else {
        match texts[i] {
            Some(t) => match version_in(lines(t@), 0) {
                Some(v) => Some(v),
                None => first_version(texts, i + 1),
            },
            None => first_version(texts, i + 1),
        }
    }
}

/// The version of Qt, from the texts of its version files that could be read.
pub fn read_qt_version(texts: &Vec<Option<String>>) -> (r: Option<String>)
    ensures
        opt_view(r) == first_version(texts@, 0),
{
    let mut i: usize = 0;
    while i < texts.len()
        invariant
            i <= texts@.len(),
            first_version(texts@, 0) == first_version(texts@, i as int),
        decreases texts@.len() - i,
    {
        match &texts[i] {
            Some(t) => match parse_qt_version_cmake(t.as_str()) {
                Some(v) => {
                    return Some(v);
                },
                None => {},
            },
            None => {},
        }
        i += 1;
    }
    None
}

// ---- files ---------------------------------------------------------------------------------------

/// Whether a file is written: only where its content changes, so that its time
/// stays.
pub fn needs_write(existing: &Option<String>, content: &str) -> (r: bool)
    ensures
        r == (opt_view(*existing) != Some(content@)),
{
    match existing {
        Some(s) => !same(s.as_str(), content),
        None => true,
    }
}

/// The names of the runtime headers.
pub open spec fn runtime_headers() -> Seq<Seq<char>> {
    seq![
        "cute_arc.h"@,
        "cute_async.h"@,
        "cute_error.h"@,
        "cute_slice.h"@,
        "cute_string.h"@,
        "cute_meta.h"@,
        "cute_nullable.h"@,
        "cute_test.h"@,
        "cute_generic.h"@,
        "cute_function.h"@,
        "cute_model.h"@,
        "cute_ki18n.h"@,
        "cute_code_highlighter.h"@,
    ]
}

/// The names of the runtime headers.
pub fn runtime_header_names() -> (r: Vec<String>)
    ensures
        views(r@) == runtime_headers(),
{
    let mut v: Vec<String> = Vec::new();
    v.push("cute_arc.h".to_owned());
    v.push("cute_async.h".to_owned());
    v.push("cute_error.h".to_owned());
    v.push("cute_slice.h".to_owned());
    v.push("cute_string.h".to_owned());
    v.push("cute_meta.h".to_owned());
    v.push("cute_nullable.h".to_owned());
    v.push("cute_test.h".to_owned());
    v.push("cute_generic.h".to_owned());
    v.push("cute_function.h".to_owned());
    v.push("cute_model.h".to_owned());
    v.push("cute_ki18n.h".to_owned());
    v.push("cute_code_highlighter.h".to_owned());
    assert(views(v@) =~= runtime_headers());
    v
}

// ---- laws -----------------------------------------------------------------------------------

proof fn lemma_newest(v: Seq<CacheEntry>, n: int)
    requires
        0 <= n <= v.len(),
        newest_of(v, n) is Some,
    ensures
        match newest_of(v, n)->0 {
            Some(b) => {
                &&& forall|i: int|
                    0 <= i < n && (#[trigger] v[i]).configured ==> v[i].modified is Some
                        && v[i].modified->0 <= b.0
                &&& exists|i: int|
                    0 <= i < n && (#[trigger] v[i]).configured && v[i].modified == Some(b.0)
                        && v[i].path@ == b.1
            },
            None => forall|i: int| 0 <= i < n ==> !(#[trigger] v[i]).configured,
        },
    decreases n,
{
    if n > 0 {
        lemma_newest(v, n - 1);
        match newest_of(v, n)->0 {
            Some(b) => {
                if newest_of(v, n - 1)->0 == Some(b) {
                    let i = choose|i: int|
                        0 <= i < n - 1 && (#[trigger] v[i]).configured && v[i].modified == Some(b.0)
                            && v[i].path@ == b.1;
                    assert(v[i].configured && v[i].path@ == b.1);
                } else {
                    assert(v[n - 1].configured && v[n - 1].path@ == b.1);
                }
            },
            None => {},
        }
    }
}

/// The install that is taken is configured, and no configured install is newer.
pub proof fn law_newest_install(v: Seq<CacheEntry>)
    requires
        newest_install(v) is Some,
    ensures
        exists|i: int|
            0 <= i < v.len() && (#[trigger] v[i]).configured && v[i].path@ == newest_install(v)->0
                && forall|j: int|
                0 <= j < v.len() && (#[trigger] v[j]).configured ==> v[j].modified is Some
                    && v[i].modified is Some && v[j].modified->0 <= v[i].modified->0,
{
    lemma_newest(v, v.len() as int);
    let b = newest_of(v, v.len() as int)->0->0;
    let i = choose|i: int|
        0 <= i < v.len() && (#[trigger] v[i]).configured && v[i].modified == Some(b.0)
            && v[i].path@ == b.1;
    assert(v[i].configured && v[i].path@ == newest_install(v)->0);
}

} // verus!
