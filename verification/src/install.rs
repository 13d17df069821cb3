//! Installing libraries, the runtime and the support for editors.

use crate::manifest::{CuteLibSpec, Manifest};
use crate::sources::{join_path, path_join};
use crate::text::{
    after_last, chars_match_at, chars_of, ends_with, has_char, has_prefix, has_suffix, index_of,
    lemma_index_of_unique, lines,
    matches_at, opt_view, rest_after_last, rfind_chars, rfind_from, starts_with, string_of,
    strip_prefix, text_lines, trim, trim_end_char, trim_start_char, trimmed, trimmed_end_char,
    trimmed_start_char, views, without_prefix,
};
use vstd::prelude::*;
use vstd::string::*;

verus! {

// ---- where a library comes from -----------------------------------------------------

/// The text has the form `user@host:path`: before its first colon it names a
/// user.
pub open spec fn names_user(s: Seq<char>) -> bool {
    s.contains(':') && s.subrange(0, index_of(s, ':')).contains('@')
}

/// The text names a repository: by a protocol, by its suffix, or by a user and a
/// host. What starts like a path is none, but for its suffix.
pub open spec fn is_git_url(s: Seq<char>) -> bool {
    ||| starts_with(s, "https://"@)
    ||| starts_with(s, "http://"@)
    ||| starts_with(s, "ssh://"@)
    ||| starts_with(s, "git://"@)
    ||| starts_with(s, "git@"@)
    ||| ends_with(s, ".git"@)
    ||| (names_user(s) && !starts_with(s, "/"@) && !starts_with(s, "."@))
}

fn has_user(s: &str) -> (r: bool)
    ensures
        r == names_user(s@),
{
    let v = chars_of(s);
    let mut seen = false;
    let mut i: usize = 0;
    while i < v.len()
        invariant
            v@ == s@,
            i <= v@.len(),
            forall|j: int| 0 <= j < i ==> v@[j] != ':',
            seen == v@.subrange(0, i as int).contains('@'),
        decreases v@.len() - i,
    {
        let c = v[i];
        proof {
            assert(v@.subrange(0, i + 1) =~= v@.subrange(0, i as int).push(c));
        }
        if c == ':' {
            proof {
                lemma_index_of_unique(s@, ':', i as int);
                assert(s@[i as int] == ':');
            }
            return seen;
        }
        proof {
            let before = v@.subrange(0, i as int);
            let after = v@.subrange(0, i + 1);
            if before.contains('@') {
                let j = choose|j: int| 0 <= j < before.len() && before[j] == '@';
                assert(after[j] == '@');
            }
            if c == '@' {
                assert(after[i as int] == '@');
            }
        }
        seen = seen || c == '@';
        i += 1;
    }
    false
}

/// Whether the text names a repository.
pub fn looks_like_git_url(s: &str) -> (r: bool)
    ensures
        r == is_git_url(s@),
{
    has_prefix(s, "https://") || has_prefix(s, "http://") || has_prefix(s, "ssh://") || has_prefix(
        s,
        "git://",
    ) || has_prefix(s, "git@") || has_suffix(s, ".git") || (has_user(s) && !has_prefix(s, "/")
        && !has_prefix(s, "."))
}

/// The repository and the revision of `url@rev`. Only the last `@` counts, and
/// what follows it is no revision where it holds `:` or `/`.
pub open spec fn git_parts(s: Seq<char>) -> (Seq<char>, Option<Seq<char>>) {
    match rfind_from(s, "@"@, s.len() as int) {
        Some(i) => {
            let right = s.subrange(i + 1, s.len() as int);
            if right.contains(':') || right.contains('/') {
                (s, None)
            } else {
                (s.subrange(0, i), Some(right))
            }
        },
        None => (s, None),
    }
}

/// The repository and the revision of a text.
pub fn split_git_spec(s: &str) -> (r: (String, Option<String>))
    ensures
        (r.0@, opt_view(r.1)) == git_parts(s@),
{
    let v = chars_of(s);
    let at = chars_of("@");
    proof {
        reveal_strlit("@");
        assert(at@.len() == 1);
    }
    match rfind_chars(&v, &at) {
        Some(i) => {
            let n: usize = v.len();
            let right = string_of(&v, i + 1, n);
            if has_char(right.as_str(), ':') || has_char(right.as_str(), '/') {
                (s.to_owned(), None)
            } else {
                (string_of(&v, 0, i), Some(right))
            }
        },
        None => (s.to_owned(), None),
    }
}

/// `s` without every `p` at its end.
pub open spec fn trim_end_text(s: Seq<char>, p: Seq<char>) -> Seq<char>
    decreases s.len(),
{
    if p.len() > 0 && ends_with(s, p) {
        trim_end_text(s.subrange(0, s.len() - p.len()), p)
    } else {
        s
    }
}

/// The directory that a repository is cloned to: the last name of its address,
/// without `.git`.
pub open spec fn clone_name(url: Seq<char>) -> Seq<char> {
    trim_end_text(after_last(trim_end_char(url, '/'), "/"@), ".git"@)
}

fn trimmed_end_text(s: &str, p: &str) -> (r: String)
    ensures
        r@ == trim_end_text(s@, p@),
{
    let v = chars_of(s);
    let q = chars_of(p);
    let m: usize = q.len();
    let mut n: usize = v.len();
    assert(v@.subrange(0, n as int) =~= v@);
    while m > 0 && suffix_at(&v, &q, n)
        invariant
            n <= v@.len(),
            m == q@.len(),
            v@ == s@,
            q@ == p@,
            trim_end_text(s@, p@) == trim_end_text(v@.subrange(0, n as int), p@),
        decreases n,
    {
        assert(v@.subrange(0, n as int).subrange(0, n - m) =~= v@.subrange(0, n - m));
        n -= m;
    }
    string_of(&v, 0, n)
}

fn suffix_at(v: &Vec<char>, q: &Vec<char>, n: usize) -> (r: bool)
    requires
        n <= v@.len(),
    ensures
        r == ends_with(v@.subrange(0, n as int), q@),
{
    if q.len() > n {
        return false;
    }
    let r = chars_match_at(v, q, n - q.len());
    assert(v@.subrange(0, n as int).subrange(n - q@.len(), n as int) =~= v@.subrange(
        n - q@.len(),
        n as int,
    ));
    r
}

/// The directory that a repository is cloned to.
pub fn clone_dir_name(url: &str) -> (r: String)
    ensures
        r@ == clone_name(url@),
{
    let t = trimmed_end_char(url, '/');
    let last = rest_after_last(t.as_str(), "/");
    trimmed_end_text(last.as_str(), ".git")
}

/// Where repositories are cloned to.
pub open spec fn scratch_path(home: Option<Seq<char>>) -> Seq<char> {
    path_join(
        match home {
            Some(h) => h,
            None => "/tmp"@,
        },
        ".cache/cute/install-scratch"@,
    )
}

/// Where repositories are cloned to.
pub fn scratch_dir(home: &Option<String>) -> (r: String)
    ensures
        r@ == scratch_path(opt_view(*home)),
{
    match home {
        Some(h) => join_path(h.as_str(), ".cache/cute/install-scratch"),
        None => join_path("/tmp", ".cache/cute/install-scratch"),
    }
}

/// What to install.
#[derive(Debug)]
pub enum InstallSource {
    /// A repository.
    Git { url: String, rev: Option<String>, work: String },
    /// A directory or an entry file.
    Local(String),
    /// Everything that the manifest of the current directory names.
    Manifest,
}

/// `r` is the repository that `s` names, with its working copy.
pub open spec fn is_git_source(r: InstallSource, s: Seq<char>, home: Option<Seq<char>>) -> bool {
    match r {
        InstallSource::Git { url, rev, work } => {
            &&& (url@, opt_view(rev)) == git_parts(s)
            &&& work@ == path_join(scratch_path(home), clone_name(git_parts(s).0))
        },
        _ => false,
    }
}

/// The repository that a text names, with its working copy.
pub fn install_from_git(s: &str, home: &Option<String>) -> (r: InstallSource)
    ensures
        is_git_source(r, s@, opt_view(*home)),
{
    let (url, rev) = split_git_spec(s);
    let work = join_path(scratch_dir(home).as_str(), clone_dir_name(url.as_str()).as_str());
    InstallSource::Git { url, rev, work }
}

/// What to install: what is named, and else what the manifest names.
pub fn cute_install(target: Option<String>, home: &Option<String>) -> (r: InstallSource)
    ensures
        match target {
            Some(s) => if is_git_url(s@) {
                is_git_source(r, s@, opt_view(*home))
            } else {
                r == InstallSource::Local(s)
            },
            None => r == InstallSource::Manifest,
        },
{
    match target {
        Some(s) => if looks_like_git_url(s.as_str()) {
            install_from_git(s.as_str(), home)
        } else {
            InstallSource::Local(s)
        },
        None => InstallSource::Manifest,
    }
}

/// The arguments by which git fetches a repository. The history stays short
/// until a revision is asked for.
pub fn clone_args(url: &str, work: &str) -> (r: Vec<String>)
    ensures
        views(r@) == seq!["clone"@, "--depth=1"@, url@, work@],
{
    let mut v: Vec<String> = Vec::new();
    v.push("clone".to_owned());
    v.push("--depth=1".to_owned());
    v.push(url.to_owned());
    v.push(work.to_owned());
    assert(views(v@) =~= seq!["clone"@, "--depth=1"@, url@, work@]);
    v
}

/// What to do for a library of a manifest.
#[derive(Debug)]
pub enum LibraryAction {
    /// Install the repository.
    Git(String),
    /// Install the directory.
    Path(String),
    /// There is nothing to install from.
    Skip,
}

/// The action for a library is the one that its description asks for: a
/// repository comes before a path.
pub open spec fn is_action_for(a: LibraryAction, s: CuteLibSpec, dir: Seq<char>) -> bool {
    match s.git {
        Some(g) => match a {
            LibraryAction::Git(t) => t@ == match s.rev {
                Some(r) => g@ + "@"@ + r@,
                None => g@,
            },
            _ => false,
        },
        None => match s.path {
            Some(p) => match a {
                LibraryAction::Path(t) => t@ == path_join(dir, p@),
                _ => false,
            },
            None => a is Skip,
        },
    }
}

/// The action for a library.
pub fn library_action(s: &CuteLibSpec, dir: &str) -> (r: LibraryAction)
    ensures
        is_action_for(r, *s, dir@),
{
    match &s.git {
        Some(g) => match &s.rev {
            Some(r) => LibraryAction::Git(g.clone().concat("@").concat(r.as_str())),
            None => LibraryAction::Git(g.clone()),
        },
        None => match &s.path {
            Some(p) => LibraryAction::Path(join_path(dir, p.as_str())),
            None => LibraryAction::Skip,
        },
    }
}

/// What to do for every library of a manifest, in the order of their names.
pub fn install_from_consumer_manifest(m: &Manifest, dir: &str) -> (r: Vec<(String, LibraryAction)>)
    ensures
        r@.len() == m.cute_libraries.specs.items().len(),
        forall|i: int|
            0 <= i < r@.len() ==> (#[trigger] r@[i]).0 == m.cute_libraries.specs.items()[i].0
                && is_action_for(r@[i].1, m.cute_libraries.specs.items()[i].1, dir@),
{
    let specs = &m.cute_libraries.specs;
    let n: usize = specs.len();
    let mut out: Vec<(String, LibraryAction)> = Vec::new();
    let mut i: usize = 0;
    while i < n
        invariant
            i <= n,
            n == specs.items().len(),
            out@.len() == i,
            forall|j: int|
                0 <= j < i ==> (#[trigger] out@[j]).0 == specs.items()[j].0 && is_action_for(
                    out@[j].1,
                    specs.items()[j].1,
                    dir@,
                ),
        decreases n - i,
    {
        let name = specs.key_at(i).clone();
        let action = library_action(specs.value_at(i), dir);
        out.push((name, action));
        i += 1;
    }
    out
}

// ---- the runtime ----------------------------------------------------------------------

/// The name of a system: its processor and its kind.
pub fn host_triple(arch: &str, os: &str) -> (r: String)
    ensures
        r@ == arch@ + "-"@ + os@,
{
    arch.to_owned().concat("-").concat(os)
}

/// Where the sources of the runtime are looked for: where it is asked for, and
/// else beside the program.
pub fn runtime_source(source: Option<String>, program_root: &Option<String>) -> (r: Option<String>)
    ensures
        match source {
            Some(s) => r == Some(s),
            None => opt_view(r) == match program_root {
                Some(p) => Some(path_join(p@, "runtime/cute-ui"@)),
                None => None,
            },
        },
{
    match source {
        Some(s) => Some(s),
        None => match program_root {
            Some(p) => Some(join_path(p.as_str(), "runtime/cute-ui")),
            None => None,
        },
    }
}

/// Where the runtime is installed to.
pub open spec fn runtime_prefix_path(
    home: Seq<char>,
    version: Seq<char>,
    triple: Seq<char>,
) -> Seq<char> {
    path_join(path_join(path_join(home, ".cache/cute/cute-ui-runtime"@), version), triple)
}

/// Where the runtime is installed to: where it is asked for, and else the
/// cache of the user.
pub fn runtime_prefix(
    prefix: Option<String>,
    home: &Option<String>,
    version: &str,
    triple: &str,
) -> (r: Option<String>)
    ensures
        match prefix {
            Some(p) => r == Some(p),
            None => opt_view(r) == match home {
                Some(h) => Some(runtime_prefix_path(h@, version@, triple@)),
                None => None,
            },
        },
{
    match prefix {
        Some(p) => Some(p),
        None => match home {
            Some(h) => {
                let base = join_path(h.as_str(), ".cache/cute/cute-ui-runtime");
                let dir = join_path(base.as_str(), version);
                Some(join_path(dir.as_str(), triple))
            },
            None => None,
        },
    }
}

/// What is to be done for the runtime.
#[derive(Debug)]
pub struct RuntimePlan {
    pub source: String,
    pub prefix: String,
    pub build_dir: String,
    pub configure: Vec<String>,
    pub build: Vec<String>,
    pub install: Vec<String>,
}

/// The arguments by which cmake configures the runtime.
pub open spec fn configure_args(
    source: Seq<char>,
    build_dir: Seq<char>,
    qt: Option<Seq<char>>,
) -> Seq<Seq<char>> {
    let base = seq![
        "-S"@,
        source,
        "-B"@,
        build_dir,
        "-DCMAKE_BUILD_TYPE=Release"@,
        "-DCUTE_UI_BUILD_EXAMPLES=OFF"@,
    ];
    match qt {
        Some(p) => base.push("-DCMAKE_PREFIX_PATH="@ + p),
        None => base,
    }
}

/// Plans the build of the runtime. `exists_there` says whether its sources are
/// where they were looked for; `qt` is where Qt is.
pub fn install_cute_ui(
    source: Option<String>,
    exists_there: bool,
    prefix: Option<String>,
    qt: &Option<String>,
) -> (r: Result<RuntimePlan, String>)
    ensures
        match (source, prefix) {
            (Some(s), Some(p)) if exists_there => match r {
                Ok(plan) => {
                    let dir = path_join(s@, "build"@);
                    &&& plan.source == s
                    &&& plan.prefix == p
                    &&& plan.build_dir@ == dir
                    &&& views(plan.configure@) == configure_args(s@, dir, opt_view(*qt))
                    &&& views(plan.build@) == seq!["--build"@, dir, "-j"@]
                    &&& views(plan.install@) == seq!["--install"@, dir, "--prefix"@, p@]
                },
                Err(_) => false,
            },
            _ => match r {
                Err(e) => e@ == if source is Some && exists_there {
                    "could not determine install prefix; pass --prefix"@
                } else {
                    "could not locate runtime/cute-ui source. Pass --source <path> explicitly."@
                },
                Ok(_) => false,
            },
        },
{
    let source = match source {
        Some(s) if exists_there => s,
        _ => {
            return Err(
                "could not locate runtime/cute-ui source. Pass --source <path> explicitly.".to_owned(),
            );
        },
    };
    let prefix = match prefix {
        Some(p) => p,
        None => {
            return Err("could not determine install prefix; pass --prefix".to_owned());
        },
    };
    let build_dir = join_path(source.as_str(), "build");
    let mut configure: Vec<String> = Vec::new();
    configure.push("-S".to_owned());
    configure.push(source.clone());
    configure.push("-B".to_owned());
    configure.push(build_dir.clone());
    configure.push("-DCMAKE_BUILD_TYPE=Release".to_owned());
    configure.push("-DCUTE_UI_BUILD_EXAMPLES=OFF".to_owned());
    match qt {
        Some(p) => {
            configure.push("-DCMAKE_PREFIX_PATH=".to_owned().concat(p.as_str()));
        },
        None => {},
    }
    assert(views(configure@) =~= configure_args(source@, build_dir@, opt_view(*qt)));
    let mut build: Vec<String> = Vec::new();
    build.push("--build".to_owned());
    build.push(build_dir.clone());
    build.push("-j".to_owned());
    assert(views(build@) =~= seq!["--build"@, build_dir@, "-j"@]);
    let mut install: Vec<String> = Vec::new();
    install.push("--install".to_owned());
    install.push(build_dir.clone());
    install.push("--prefix".to_owned());
    install.push(prefix.clone());
    assert(views(install@) =~= seq!["--install"@, build_dir@, "--prefix"@, prefix@]);
    Ok(RuntimePlan { source, prefix, build_dir, configure, build, install })
}

// ---- editors ----------------------------------------------------------------------------

/// Why something is not written over.
pub fn overwrite_error(path: &str, exists_there: bool, force: bool) -> (r: Option<String>)
    ensures
        match r {
            Some(e) => exists_there && !force && e@ == path@
                + " already exists; pass --force to overwrite"@,
            None => !exists_there || force,
        },
{
    if exists_there && !force {
        Some(path.to_owned().concat(" already exists; pass --force to overwrite"))
    } else {
        None
    }
}

/// The version behind `"version"`, without what surrounds it.
pub open spec fn version_in(rest: Seq<char>) -> Seq<char> {
    trim_end_char(
        trim_start_char(trim_end_char(trim(trim_start_char(rest, ':')), ','), '"'),
        '"',
    )
}

/// The version that the lines from `i` on give; `0.0.0` where none does.
pub open spec fn version_from(v: Seq<Seq<char>>, i: int) -> Seq<char>
    decreases v.len() - i,
{
    if i < 0 || i >= v.len() {
        "0.0.0"@
    } else {
        match strip_prefix(trim(v[i]), "\"version\""@) {
            Some(rest) => version_in(rest),
            None => version_from(v, i + 1),
        }
    }
}

/// The version of an extension.
pub fn parse_extension_version(package_json: &str) -> (r: String)
    ensures
        r@ == version_from(lines(package_json@), 0),
{
    let rows = text_lines(package_json);
    let ghost v = views(rows@);
    assert(v.len() == rows@.len());
    let mut i: usize = 0;
    while i < rows.len()
        invariant
            i <= rows@.len(),
            v == views(rows@),
            v.len() == rows@.len(),
            v == lines(package_json@),
            version_from(v, 0) == version_from(v, i as int),
        decreases rows@.len() - i,
    {
        let t = trimmed(rows[i].as_str());
        match without_prefix(t.as_str(), "\"version\"") {
            Some(rest) => {
                let a = trimmed(trimmed_start_char(rest.as_str(), ':').as_str());
                let b = trimmed_end_char(a.as_str(), ',');
                let c = trimmed_start_char(b.as_str(), '"');
                return trimmed_end_char(c.as_str(), '"');
            },
            None => {},
        }
        i += 1;
    }
    "0.0.0".to_owned()
}

/// Where the extension for VS Code is installed to.
pub fn install_vscode(home: &str, package_json: &str) -> (r: String)
    ensures
        r@ == path_join(
            path_join(path_join(home@, ".vscode"@), "extensions"@),
            "i2y.cute-language-"@ + version_from(lines(package_json@), 0),
        ),
{
    let version = parse_extension_version(package_json);
    let name = "i2y.cute-language-".to_owned().concat(version.as_str());
    let base = join_path(home, ".vscode");
    let dir = join_path(base.as_str(), "extensions");
    join_path(dir.as_str(), name.as_str())
}

/// Where programs keep their data.
pub open spec fn data_home(on_macos: bool, home: Seq<char>, xdg: Option<Seq<char>>) -> Seq<char> {
    if on_macos {
        path_join(path_join(home, "Library"@), "Application Support"@)
    } else {
        match xdg {
            Some(x) => x,
            None => path_join(path_join(home, ".local"@), "share"@),
        }
    }
}

/// The directory that the syntax for Kate is installed to.
pub fn install_kate(on_macos: bool, home: &str, xdg: &Option<String>) -> (r: String)
    ensures
        r@ == path_join(
            path_join(data_home(on_macos, home@, opt_view(*xdg)), "org.kde.syntax-highlighting"@),
            "syntax"@,
        ),
{
    let data = if on_macos {
        join_path(join_path(home, "Library").as_str(), "Application Support")
    } else {
        match xdg {
            Some(x) => x.clone(),
            None => join_path(join_path(home, ".local").as_str(), "share"),
        }
    };
    join_path(join_path(data.as_str(), "org.kde.syntax-highlighting").as_str(), "syntax")
}

// ---- agents -----------------------------------------------------------------------------

/// An agent that can be told of the language.
#[derive(Debug)]
pub struct SkillTarget {
    pub agent: String,
    /// The directory of its file, below the home directory.
    pub dir: String,
    pub file: String,
    /// What stands before the text.
    pub head: String,
    /// The agent is asked for.
    pub named: bool,
    /// The home directory shows that the agent is in use.
    pub detected: bool,
}

/// What stands before the text in a file for Cursor.
pub open spec fn cursor_head() -> Seq<char> {
    "---\ndescription: Cute language reference — Qt 6 / KDE Frameworks-targeted language by i2y. See body for hard requirements and common AI mistakes.\nglobs: \"**/*.cute,**/*.qpi,**/cute.toml\"\nalwaysApply: false\n---\n"@
}

/// Cursor, which reads its rules with a head of their own.
pub fn cursor_target(named: bool, detected: bool) -> (r: SkillTarget)
    ensures
        r.agent@ == "cursor"@,
        r.dir@ == ".cursor/rules"@,
        r.file@ == "cute.mdc"@,
        r.head@ == cursor_head(),
        r.named == named,
        r.detected == detected,
{
    let head =
        "---\ndescription: Cute language reference — Qt 6 / KDE Frameworks-targeted language by i2y. See body for hard requirements and common AI mistakes.\nglobs: \"**/*.cute,**/*.qpi,**/cute.toml\"\nalwaysApply: false\n---\n".to_owned();
    SkillTarget {
        agent: "cursor".to_owned(),
        dir: ".cursor/rules".to_owned(),
        file: "cute.mdc".to_owned(),
        head,
        named,
        detected,
    }
}

/// Codex and the tools that read the same plain file.
pub fn codex_target(named: bool, detected: bool) -> (r: SkillTarget)
    ensures
        r.agent@ == "codex"@,
        r.dir@ == ".codex"@,
        r.file@ == "AGENTS.md"@,
        r.head@ == Seq::<char>::empty(),
        r.named == named,
        r.detected == detected,
{
    let head = String::new();
    assert(head@ =~= Seq::<char>::empty());
    SkillTarget {
        agent: "codex".to_owned(),
        dir: ".codex".to_owned(),
        file: "AGENTS.md".to_owned(),
        head,
        named,
        detected,
    }
}

/// A file that tells an agent of the language.
#[derive(Debug)]
pub struct SkillFile {
    pub agent: String,
    pub dir: String,
    pub path: String,
    pub text: String,
}

/// A skill file by its texts.
pub open spec fn skill_view(f: SkillFile) -> (Seq<char>, Seq<char>, Seq<char>, Seq<char>) {
    (f.agent@, f.dir@, f.path@, f.text@)
}

pub open spec fn skill_views(v: Seq<SkillFile>) -> Seq<
    (Seq<char>, Seq<char>, Seq<char>, Seq<char>),
> {
    Seq::new(v.len(), |i: int| skill_view(v[i]))
}

/// Some agent is asked for.
pub open spec fn any_named(v: Seq<SkillTarget>) -> bool {
    exists|i: int| 0 <= i < v.len() && (#[trigger] v[i]).named
}

/// The file for an agent.
pub open spec fn skill_of(home: Seq<char>, body: Seq<char>, t: SkillTarget) -> (
    Seq<char>,
    Seq<char>,
    Seq<char>,
    Seq<char>,
) {
    let dir = path_join(home, t.dir@);
    (t.agent@, dir, path_join(dir, t.file@), t.head@ + body)
}

/// The agent is told: it is asked for, or none is and it is in use.
pub open spec fn is_told(v: Seq<SkillTarget>, t: SkillTarget) -> bool {
    if any_named(v) {
        t.named
    } else {
        t.detected
    }
}

/// The files for those of the first `n` agents that are told.
pub open spec fn skill_files(
    home: Seq<char>,
    body: Seq<char>,
    v: Seq<SkillTarget>,
    n: int,
) -> Seq<(Seq<char>, Seq<char>, Seq<char>, Seq<char>)>
    decreases n,
{
    if n <= 0 {
        Seq::empty()
    } else if is_told(v, v[n - 1]) {
        skill_files(home, body, v, n - 1).push(skill_of(home, body, v[n - 1]))
    } else {
        skill_files(home, body, v, n - 1)
    }
}

fn names_any(v: &Vec<SkillTarget>) -> (r: bool)
    ensures
        r == any_named(v@),
{
    let mut i: usize = 0;
    while i < v.len()
        invariant
            i <= v@.len(),
            forall|j: int| 0 <= j < i ==> !(#[trigger] v@[j]).named,
        decreases v@.len() - i,
    {
        if v[i].named {
            assert(v@[i as int].named);
            return true;
        }
        i += 1;
    }
    false
}

/// The files to write for agents: for exactly those that are asked for, and for
/// those in use where none is.
pub fn install_skills(home: &str, body: &str, targets: &Vec<SkillTarget>) -> (r: Vec<SkillFile>)
    ensures
        skill_views(r@) == skill_files(home@, body@, targets@, targets@.len() as int),
{
    let any = names_any(targets);
    let mut out: Vec<SkillFile> = Vec::new();
    assert(skill_views(out@) =~= Seq::empty());
    let mut i: usize = 0;
    while i < targets.len()
        invariant
            i <= targets@.len(),
            any == any_named(targets@),
            skill_views(out@) == skill_files(home@, body@, targets@, i as int),
        decreases targets@.len() - i,
    {
        let t = &targets[i];
        let told = if any {
            t.named
        } else {
            t.detected
        };
        if told {
            let dir = join_path(home, t.dir.as_str());
            let path = join_path(dir.as_str(), t.file.as_str());
            let text = t.head.clone().concat(body);
            let f = SkillFile { agent: t.agent.clone(), dir, path, text };
            let ghost fv = skill_view(f);
            let ghost before = out@;
            out.push(f);
            assert(skill_views(out@) =~= skill_views(before).push(fv));
        }
        i += 1;
    }
    out
}

/// What is said at the end: the files that were written, and for each failure
/// a line of errors.
pub open spec fn skill_report(written: Seq<Seq<char>>) -> Seq<char> {
    if written.len() == 0 {
        Seq::empty()
    } else {
        listed_paths("installed Cute agent skill:\n"@, written, written.len() as int)
            + "\nThese trigger on `.cute` file edits or questions about Cute.\n"@
    }
}

/// The first `n` paths, one on a line.
pub open spec fn listed_paths(s: Seq<char>, v: Seq<Seq<char>>, n: int) -> Seq<char>
    decreases n,
{
    if n <= 0 {
        s
    } else {
        listed_paths(s, v, n - 1) + "  "@ + v[n - 1] + "\n"@
    }
}

/// What is said of the files that were written.
pub fn report_skills(written: &Vec<String>) -> (r: String)
    ensures
        r@ == skill_report(views(written@)),
{
    if written.len() == 0 {
        let none = String::new();
        assert(none@ =~= Seq::<char>::empty());
        return none;
    }
    let mut out = "installed Cute agent skill:\n".to_owned();
    let ghost start = out@;
    assert(views(written@).len() == written@.len());
    let mut i: usize = 0;
    while i < written.len()
        invariant
            i <= written@.len(),
            out@ == listed_paths(start, views(written@), i as int),
        decreases written@.len() - i,
    {
        out = out.concat("  ").concat(written[i].as_str()).concat("\n");
        i += 1;
    }
    out.concat("\nThese trigger on `.cute` file edits or questions about Cute.\n")
}

// ---- laws -------------------------------------------------------------------------------

/// A path that starts with `/` or `.` names a repository only by its suffix.
pub proof fn law_paths_are_no_repositories(s: Seq<char>)
    requires
        starts_with(s, "/"@) || starts_with(s, "."@),
    ensures
        is_git_url(s) <==> ends_with(s, ".git"@),
{
    reveal_strlit("/");
    reveal_strlit(".");
    reveal_strlit("https://");
    reveal_strlit("http://");
    reveal_strlit("ssh://");
    reveal_strlit("git://");
    reveal_strlit("git@");
    assert(s[0] == '/' || s[0] == '.') by {
        if starts_with(s, "/"@) {
            assert(s.subrange(0, 1)[0] == "/"@[0]);
        } else {
            assert(s.subrange(0, 1)[0] == "."@[0]);
        }
    }
    if starts_with(s, "https://"@) {
        assert(s.subrange(0, 8)[0] == "https://"@[0]);
    }
    if starts_with(s, "http://"@) {
        assert(s.subrange(0, 7)[0] == "http://"@[0]);
    }
    if starts_with(s, "ssh://"@) {
        assert(s.subrange(0, 6)[0] == "ssh://"@[0]);
    }
    if starts_with(s, "git://"@) {
        assert(s.subrange(0, 6)[0] == "git://"@[0]);
    }
    if starts_with(s, "git@"@) {
        assert(s.subrange(0, 4)[0] == "git@"@[0]);
    }
}

/// Behind the last `@`, a revision is given back as it was written.
pub proof fn law_revision_round_trip(url: Seq<char>, rev: Seq<char>)
    requires
        !rev.contains(':'),
        !rev.contains('/'),
        !rev.contains('@'),
    ensures
        git_parts(url + "@"@ + rev) == (url, Some(rev)),
{
    reveal_strlit("@");
    let s = url + "@"@ + rev;
    let n = url.len() as int;
    assert(s.subrange(n, n + 1) =~= "@"@);
    lemma_last_at(s, n, s.len() as int);
    assert(s.subrange(n + 1, s.len() as int) =~= rev);
    assert(s.subrange(0, n) =~= url);
}

proof fn lemma_last_at(s: Seq<char>, at: int, i: int)
    requires
        0 <= at < s.len(),
        at <= i <= s.len(),
        matches_here(s, at),
        forall|j: int| at < j < s.len() ==> s[j] != '@',
    ensures
        rfind_from(s, "@"@, i) == Some(at),
    decreases i,
{
    reveal_strlit("@");
    if i > at {
        if matches_at(s, "@"@, i) {
            assert(s.subrange(i, i + 1)[0] == s[i]);
        }
        lemma_last_at(s, at, i - 1);
    }
}

spec fn matches_here(s: Seq<char>, at: int) -> bool {
    matches_at(s, "@"@, at)
}

} // verus!
