//! Entry files, and the sources under a directory.

use crate::dict::{before, is_before, lemma_before_irreflexive, lemma_before_transitive};
use crate::manifest::DriverError;
use crate::sources::{join_path, path_join};
use crate::text::{
    chars_of, contains_string, ends_with, has_char, has_suffix, lemma_views_push, opt_view, same,
    strip_prefix, views, without_prefix,
};
use vstd::prelude::*;
use vstd::seq_lib::*;
use vstd::string::*;

verus! {

// ---- entry files ----------------------------------------------------------------------

/// The path or name has the extension of sources: a name before `.cute`.
pub open spec fn is_source_name(name: Seq<char>) -> bool {
    name.len() > ".cute"@.len() && ends_with(name, ".cute"@)
}

/// Whether a file name has the extension of sources.
pub fn names_source(name: &str) -> (r: bool)
    ensures
        r == is_source_name(name@),
{
    let long = has_suffix(name, ".cute") && !same(name, ".cute");
    proof {
        reveal_strlit(".cute");
        if ends_with(name@, ".cute"@) && name@.len() == ".cute"@.len() {
            assert(name@ =~= ".cute"@);
        }
    }
    long
}

/// A file or directory in a directory.
#[derive(Debug)]
pub struct DirFile {
    pub name: String,
    pub is_file: bool,
}

/// A directory in which an entry file is looked for.
#[derive(Debug)]
pub struct EntryDir {
    pub path: String,
    /// The last name of the path.
    pub base: Option<String>,
    /// The file that is named after the directory is there.
    pub has_named: bool,
    /// `main.cute` is there.
    pub has_main: bool,
    pub files: Vec<DirFile>,
}

/// The positions of the sources among the first `n` files.
pub open spec fn source_positions(v: Seq<DirFile>, n: int) -> Seq<int>
    decreases n,
{
    if n <= 0 {
        Seq::empty()
    } else if v[n - 1].is_file && is_source_name(v[n - 1].name@) {
        source_positions(v, n - 1).push(n - 1)
    } else {
        source_positions(v, n - 1)
    }
}

/// The file that is named after a directory.
pub open spec fn named_entry(dir: Seq<char>, base: Seq<char>) -> Seq<char> {
    path_join(dir, base + ".cute"@)
}

/// The entry file of a directory: the one that is named after it, then
/// `main.cute`, then the only source in it.
pub open spec fn entry_of(d: EntryDir) -> Option<Seq<char>> {
    let only = source_positions(d.files@, d.files@.len() as int);
    if d.base is Some && d.has_named {
        Some(named_entry(d.path@, d.base->0@))
    } else if d.has_main {
        Some(path_join(d.path@, "main.cute"@))
    } else if only.len() == 1 {
        Some(path_join(d.path@, d.files@[only[0]].name@))
    } else {
        None
    }
}

fn only_source(files: &Vec<DirFile>) -> (r: Option<usize>)
    ensures
        match r {
            Some(i) => i < files@.len() && source_positions(files@, files@.len() as int) =~= seq![
                i as int,
            ],
            None => source_positions(files@, files@.len() as int).len() != 1,
        },
{
    let mut found: Option<usize> = None;
    let mut many = false;
    let mut i: usize = 0;
    while i < files.len()
        invariant
            i <= files@.len(),
            many ==> source_positions(files@, i as int).len() > 1,
            !many ==> match found {
                Some(k) => k < i && source_positions(files@, i as int) =~= seq![k as int],
                None => source_positions(files@, i as int) =~= Seq::<int>::empty(),
            },
        decreases files@.len() - i,
    {
        if files[i].is_file && names_source(files[i].name.as_str()) {
            if found.is_some() {
                many = true;
            } else {
                found = Some(i);
            }
        }
        i += 1;
    }
    if many {
        None
    } else {
        found
    }
}

fn pick_entry(d: &EntryDir) -> (r: Option<String>)
    ensures
        opt_view(r) == entry_of(*d),
{
    match &d.base {
        Some(b) => {
            if d.has_named {
                return Some(join_path(d.path.as_str(), b.clone().concat(".cute").as_str()));
            }
        },
        None => {},
    }
    if d.has_main {
        return Some(join_path(d.path.as_str(), "main.cute"));
    }
    match only_source(&d.files) {
        Some(i) => Some(join_path(d.path.as_str(), d.files[i].name.as_str())),
        None => None,
    }
}

/// The entry file of a directory that is installed.
pub fn resolve_entry_in_dir(d: &EntryDir) -> (r: Result<String, String>)
    ensures
        match entry_of(*d) {
            Some(p) => match r {
                Ok(s) => s@ == p,
                Err(_) => false,
            },
            None => match r {
                Err(e) => e@ == "no entry `.cute` file in "@ + d.path@
                    + "; expected `<dir-basename>.cute`, `main.cute`, or a single `.cute` file"@,
                Ok(_) => false,
            },
        },
{
    match pick_entry(d) {
        Some(s) => Ok(s),
        None => Err(
            "no entry `.cute` file in ".to_owned().concat(d.path.as_str()).concat(
                "; expected `<dir-basename>.cute`, `main.cute`, or a single `.cute` file",
            ),
        ),
    }
}

/// The entry file: the one that is asked for, and else that of the current
/// directory.
pub fn resolve_entry(file: Option<String>, cwd: &EntryDir) -> (r: Result<String, String>)
    ensures
        match file {
            Some(f) => r == Ok::<String, String>(f),
            None => match entry_of(*cwd) {
                Some(p) => match r {
                    Ok(s) => s@ == p,
                    Err(_) => false,
                },
                None => match r {
                    Err(e) => e@ == "no entry `.cute` file found in "@ + cwd.path@
                        + "; expected `<dir>.cute`, `main.cute`, or a single `.cute` file"@,
                    Ok(_) => false,
                },
            },
        },
{
    match file {
        Some(f) => Ok(f),
        None => match pick_entry(cwd) {
            Some(s) => Ok(s),
            None => Err(
                "no entry `.cute` file found in ".to_owned().concat(cwd.path.as_str()).concat(
                    "; expected `<dir>.cute`, `main.cute`, or a single `.cute` file",
                ),
            ),
        },
    }
}

/// The entry file that is diagnosed where none is named.
pub fn resolve_default_entry(cwd: &EntryDir) -> (r: Result<String, DriverError>)
    ensures
        match entry_of(*cwd) {
            Some(p) => match r {
                Ok(s) => s@ == p,
                Err(_) => false,
            },
            None => match r {
                Err(DriverError::Manifest(e)) => e@ == "no entry `.cute` file found in "@ + cwd.path@
                    + "; expected `<dir>.cute`, `main.cute`, or a single `.cute` file (or pass an explicit path: `cute doctor <file>`)"@,
                _ => false,
            },
        },
{
    match pick_entry(cwd) {
        Some(s) => Ok(s),
        None => Err(
            DriverError::Manifest(
                "no entry `.cute` file found in ".to_owned().concat(cwd.path.as_str()).concat(
                    "; expected `<dir>.cute`, `main.cute`, or a single `.cute` file (or pass an explicit path: `cute doctor <file>`)",
                ),
            ),
        ),
    }
}

// ---- sources under a directory ----------------------------------------------------------

/// A file, or a directory with what is in it.
#[derive(Debug)]
pub struct FileNode {
    pub path: String,
    /// The last name of the path.
    pub name: Option<String>,
    pub is_dir: bool,
    pub children: Vec<FileNode>,
}

/// What holds no sources: the directories of builds, version control, editors
/// and caches, and what else is to be passed over.
pub open spec fn is_skipped(name: Seq<char>, also: Seq<Seq<char>>) -> bool {
    ||| name == "target"@
    ||| name == ".git"@
    ||| name == ".vscode"@
    ||| name == ".idea"@
    ||| name == "node_modules"@
    ||| name == ".cache"@
    ||| also.contains(name)
}

/// Whether a file or directory of this name is passed over.
pub fn skips_name(name: &str, also: &Vec<String>) -> (r: bool)
    ensures
        r == is_skipped(name@, views(also@)),
{
    same(name, "target") || same(name, ".git") || same(name, ".vscode") || same(name, ".idea")
        || same(name, "node_modules") || same(name, ".cache") || contains_string(also, name)
}

/// The sources that a file or directory stands for, where `also` is passed over
/// too.
pub open spec fn sources_in(f: FileNode, also: Seq<Seq<char>>) -> Seq<Seq<char>>
    decreases f, 0nat,
{
    match f.name {
        Some(n) => if is_skipped(n@, also) {
            Seq::empty()
        } else if f.is_dir {
            sources_of(f.children, also, f.children@.len())
        } else if is_source_name(n@) {
            seq![f.path@]
        } else {
            Seq::empty()
        },
        None => if f.is_dir {
            sources_of(f.children, also, f.children@.len())
        } else {
            Seq::empty()
        },
    }
}

/// The sources that the first `n` files and directories stand for.
pub open spec fn sources_of(v: Vec<FileNode>, also: Seq<Seq<char>>, n: nat) -> Seq<Seq<char>>
    decreases v, n,
{
    if n == 0 || n > v@.len() {
        Seq::empty()
    } else {
        sources_of(v, also, (n - 1) as nat) + sources_in(v@[n - 1], also)
    }
}

/// The sources under a directory, as they are found.
pub fn visit_cute(entries: &Vec<FileNode>, also: &Vec<String>, out: Vec<String>) -> (r: Vec<
    String,
>)
    ensures
        views(r@) == views(out@) + sources_of(*entries, views(also@), entries@.len()),
    decreases *entries,
{
    let ghost start = views(out@);
    let mut out = out;
    assert(start =~= start + Seq::<Seq<char>>::empty());
    let mut i: usize = 0;
    while i < entries.len()
        invariant
            i <= entries@.len(),
            views(out@) == start + sources_of(*entries, views(also@), i as nat),
        decreases entries@.len() - i,
    {
        let f = &entries[i];
        let ghost done = sources_of(*entries, views(also@), i as nat);
        let ghost new = sources_in(*f, views(also@));
        assert((start + done) + new =~= start + (done + new));
        assert(views(out@) + Seq::<Seq<char>>::empty() =~= views(out@));
        assert(decreases_to!(*entries => entries[i as int]));
        let skipped = match &f.name {
            Some(n) => skips_name(n.as_str(), also),
            None => false,
        };
        if !skipped {
            if f.is_dir {
                out = visit_cute(&f.children, also, out);
            } else {
                let source = match &f.name {
                    Some(n) => names_source(n.as_str()),
                    None => false,
                };
                if source {
                    let p = f.path.clone();
                    proof {
                        lemma_views_push(out@, p);
                        assert(views(out@).push(p@) =~= views(out@) + seq![p@]);
                    }
                    out.push(p);
                }
            }
        }
        i += 1;
    }
    out
}

/// A path by which it is ordered: what parts its names comes before every
/// character of a name, so that paths are ordered name by name.
pub open spec fn path_key(s: Seq<char>) -> Seq<char> {
    Seq::new(
        s.len(),
        |i: int|
            if s[i] == '/' {
                '\0'
            } else {
                s[i]
            },
    )
}

/// `a` comes before `b`, name by name.
pub open spec fn path_before(a: Seq<char>, b: Seq<char>) -> bool {
    before(path_key(a), path_key(b))
}

/// No path comes after one that it should come before.
pub open spec fn paths_sorted(s: Seq<Seq<char>>) -> bool {
    forall|i: int, j: int| 0 <= i < j < s.len() ==> !path_before(#[trigger] s[j], #[trigger] s[i])
}

fn key_of(s: &str) -> (r: String)
    ensures
        r@ == path_key(s@),
{
    let v = chars_of(s);
    let mut out = String::new();
    let mut i: usize = 0;
    assert(out@ =~= path_key(v@).take(0));
    while i < v.len()
        invariant
            i <= v@.len(),
            out@ == path_key(v@).take(i as int),
        decreases v@.len() - i,
    {
        if v[i] == '/' {
            out.push('\0');
        } else {
            out.push(v[i]);
        }
        i += 1;
        assert(out@ =~= path_key(v@).take(i as int));
    }
    assert(out@ =~= path_key(v@));
    out
}

fn path_is_before(a: &str, b: &str) -> (r: bool)
    ensures
        r == path_before(a@, b@),
{
    is_before(key_of(a).as_str(), key_of(b).as_str())
}

fn insert_path(v: Vec<String>, s: String) -> (r: Vec<String>)
    requires
        paths_sorted(views(v@)),
    ensures
        paths_sorted(views(r@)),
        views(r@).to_multiset() == views(v@).to_multiset().insert(s@),
{
    let ghost old_views = views(v@);
    let ghost t = s@;
    let mut out = v;
    let n: usize = out.len();
    let mut p: usize = 0;
    while p < n && !path_is_before(s.as_str(), out[p].as_str())
        invariant
            p <= n,
            n == out@.len(),
            out@ == v@,
            old_views == views(v@),
            t == s@,
            forall|j: int| 0 <= j < p ==> !path_before(t, #[trigger] old_views[j]),
        decreases n - p,
    {
        assert(old_views[p as int] == out@[p as int]@);
        p += 1;
    }
    out.insert(p, s);
    proof {
        let new = views(out@);
        assert(new =~= old_views.insert(p as int, t));
        assert forall|i: int, j: int| 0 <= i < j < new.len() implies !path_before(
            #[trigger] new[j],
            #[trigger] new[i],
        ) by {
            if i < p && j == p {
                assert(new[i] == old_views[i]);
            } else if i == p {
                let x = old_views[j - 1];
                let f = old_views[p as int];
                assert(path_before(t, f));
                if path_before(x, t) {
                    lemma_before_transitive(path_key(x), path_key(t), path_key(f));
                    if p < j - 1 {
                        assert(!path_before(old_views[j - 1], old_views[p as int]));
                    } else {
                        lemma_before_irreflexive(path_key(f));
                    }
                }
            } else {
                let a = if i < p {
                    i
                } else {
                    i - 1
                };
                let b = if j < p {
                    j
                } else {
                    j - 1
                };
                assert(new[i] == old_views[a]);
                assert(new[j] == old_views[b]);
            }
        }
        to_multiset_insert(old_views, p as int, t);
    }
    out
}

/// The same paths, sorted name by name.
pub fn sort_paths(v: Vec<String>) -> (r: Vec<String>)
    ensures
        paths_sorted(views(r@)),
        views(r@).to_multiset() == views(v@).to_multiset(),
{
    let ghost vs = v@;
    let mut out: Vec<String> = Vec::new();
    proof {
        assert(views(out@) =~= views(vs).take(0));
    }
    for s in it: v
        invariant
            it.seq() == vs,
            paths_sorted(views(out@)),
            views(out@).to_multiset() == views(vs).take(it.index() as int).to_multiset(),
    {
        let ghost i = it.index() as int;
        assert(s == vs[i]);
        proof {
            let a = views(vs).take(i);
            let b = views(vs).take(i + 1);
            assert(b =~= a.insert(i, views(vs)[i]));
            to_multiset_insert(a, i, views(vs)[i]);
        }
        out = insert_path(out, s);
    }
    proof {
        assert(views(vs).take(vs.len() as int) =~= views(vs));
    }
    out
}

/// The sources under a directory, sorted name by name.
pub fn find_all_cute_files(root: &Vec<FileNode>, also: &Vec<String>) -> (r: Vec<String>)
    ensures
        paths_sorted(views(r@)),
        views(r@).to_multiset() == sources_of(*root, views(also@), root@.len()).to_multiset(),
{
    let empty: Vec<String> = Vec::new();
    assert(views(empty@) + sources_of(*root, views(also@), root@.len()) =~= sources_of(
        *root,
        views(also@),
        root@.len(),
    ));
    sort_paths(visit_cute(root, also, empty))
}

// ---- tests ------------------------------------------------------------------------------

/// The path is that of a file right in the directory.
pub open spec fn stands_in(cwd: Seq<char>, path: Seq<char>) -> bool {
    match strip_prefix(path, path_join(cwd, ""@)) {
        Some(name) => !name.contains('/'),
        None => false,
    }
}

/// Those of the first `n` files that stand right in the directory.
pub open spec fn direct_files(cwd: Seq<char>, files: Seq<Seq<char>>, n: int) -> Seq<Seq<char>>
    decreases n,
{
    if n <= 0 {
        Seq::empty()
    } else if stands_in(cwd, files[n - 1]) {
        direct_files(cwd, files, n - 1).push(files[n - 1])
    } else {
        direct_files(cwd, files, n - 1)
    }
}

/// The entry file among the sources of a directory: the one that is named after
/// it, `main.cute`, or the only source right in it.
pub open spec fn canonical_of(
    cwd: Seq<char>,
    base: Option<Seq<char>>,
    files: Seq<Seq<char>>,
) -> Option<Seq<char>> {
    if base is Some && files.contains(named_entry(cwd, base->0)) {
        Some(named_entry(cwd, base->0))
    } else if files.contains(path_join(cwd, "main.cute"@)) {
        Some(path_join(cwd, "main.cute"@))
    } else {
        let direct = direct_files(cwd, files, files.len() as int);
        if direct.len() == 1 {
            Some(direct[0])
        } else {
            None
        }
    }
}

fn find_direct(cwd: &str, files: &Vec<String>) -> (r: Vec<String>)
    ensures
        views(r@) == direct_files(cwd@, views(files@), files@.len() as int),
{
    let dir = join_path(cwd, "");
    let ghost v = views(files@);
    let mut out: Vec<String> = Vec::new();
    assert(views(out@) =~= Seq::<Seq<char>>::empty());
    let mut i: usize = 0;
    while i < files.len()
        invariant
            i <= files@.len(),
            v == views(files@),
            dir@ == path_join(cwd@, ""@),
            views(out@) == direct_files(cwd@, v, i as int),
        decreases files@.len() - i,
    {
        let inside = match without_prefix(files[i].as_str(), dir.as_str()) {
            Some(name) => !has_char(name.as_str(), '/'),
            None => false,
        };
        assert(v[i as int] == files@[i as int]@);
        if inside {
            let p = files[i].clone();
            proof {
                lemma_views_push(out@, p);
            }
            out.push(p);
        }
        i += 1;
    }
    out
}

/// The entry file among the sources of a directory.
pub fn canonical_entry(cwd: &str, base: &Option<String>, files: &Vec<String>) -> (r: Option<String>)
    ensures
        opt_view(r) == canonical_of(cwd@, opt_view(*base), views(files@)),
{
    match base {
        Some(b) => {
            let p = join_path(cwd, b.clone().concat(".cute").as_str());
            if contains_string(files, p.as_str()) {
                return Some(p);
            }
        },
        None => {},
    }
    let main = join_path(cwd, "main.cute");
    if contains_string(files, main.as_str()) {
        return Some(main);
    }
    let direct = find_direct(cwd, files);
    assert(views(direct@).len() == direct@.len());
    if direct.len() == 1 {
        Some(direct[0].clone())
    } else {
        None
    }
}

/// The position of a path, or the length.
pub open spec fn position_of(files: Seq<Seq<char>>, p: Seq<char>) -> int
    decreases files.len(),
{
    if files.len() == 0 || files[0] == p {
        0
    } else {
        1 + position_of(files.drop_first(), p)
    }
}

/// The sources with the entry file in the first place, in exchange for what
/// stood there.
pub open spec fn entry_first(files: Seq<Seq<char>>, entry: Option<Seq<char>>) -> Seq<Seq<char>> {
    match entry {
        Some(p) => {
            let i = position_of(files, p);
            if 0 <= i < files.len() {
                files.update(0, files[i]).update(i, files[0])
            } else {
                files
            }
        },
        None => files,
    }
}

fn find_position(files: &Vec<String>, p: &str) -> (r: usize)
    ensures
        r == position_of(views(files@), p@),
        r <= files@.len(),
{
    let ghost v = views(files@);
    let mut i: usize = 0;
    assert(v.skip(0) =~= v);
    while i < files.len() && !same(files[i].as_str(), p)
        invariant
            i <= files@.len(),
            v == views(files@),
            position_of(v, p@) == i + position_of(v.skip(i as int), p@),
        decreases files@.len() - i,
    {
        assert(v.skip(i as int)[0] == v[i as int]);
        assert(v.skip(i as int).drop_first() =~= v.skip(i + 1));
        i += 1;
    }
    proof {
        if i < files@.len() {
            assert(v.skip(i as int)[0] == v[i as int]);
        }
    }
    i
}

/// The inputs of a test run: the sources under the current directory, with the
/// entry file first.
pub fn collect_test_inputs(
    cwd: &str,
    base: &Option<String>,
    root: &Vec<FileNode>,
    also: &Vec<String>,
) -> (r: Vec<String>)
    ensures
        exists|sorted: Seq<Seq<char>>| #[trigger]
            paths_sorted(sorted) && sorted.to_multiset() == sources_of(
                *root,
                views(also@),
                root@.len(),
            ).to_multiset() && views(r@) == entry_first(
                sorted,
                canonical_of(cwd@, opt_view(*base), sorted),
            ),
{
    let mut all = find_all_cute_files(root, also);
    let ghost sorted = views(all@);
    assert(sorted.len() == all@.len());
    match canonical_entry(cwd, base, &all) {
        Some(p) => {
            let i = find_position(&all, p.as_str());
            if i < all.len() {
                let ghost before_swap = all@;
                let a = all[0].clone();
                let b = all[i].clone();
                all.set(0, b);
                all.set(i, a);
                assert(views(all@) =~= sorted.update(0, sorted[i as int]).update(
                    i as int,
                    sorted[0],
                ));
            }
        },
        None => {},
    }
    all
}

// ---- laws -------------------------------------------------------------------------------

/// The file that is named after the directory comes before every other.
pub proof fn law_named_entry_wins(d: EntryDir)
    requires
        d.base is Some,
        d.has_named,
    ensures
        entry_of(d) == Some(named_entry(d.path@, d.base->0@)),
{
}

/// Nothing under a directory that is passed over is a source.
pub proof fn law_skipped_directories_hold_no_sources(
    f: FileNode,
    also: Seq<Seq<char>>,
)
    requires
        f.name is Some,
        is_skipped(f.name->0@, also),
    ensures
        sources_in(f, also).len() == 0,
{
}

proof fn lemma_position_of(files: Seq<Seq<char>>, p: Seq<char>)
    requires
        files.contains(p),
    ensures
        0 <= position_of(files, p) < files.len(),
        files[position_of(files, p)] == p,
    decreases files.len(),
{
    if files.len() > 0 && files[0] != p {
        let i = choose|i: int| 0 <= i < files.len() && files[i] == p;
        assert(files.drop_first()[i - 1] == p);
        lemma_position_of(files.drop_first(), p);
    }
}

proof fn lemma_direct_files(cwd: Seq<char>, files: Seq<Seq<char>>, n: int)
    requires
        0 <= n <= files.len(),
    ensures
        forall|k: int|
            0 <= k < direct_files(cwd, files, n).len() ==> files.contains(
                #[trigger] direct_files(cwd, files, n)[k],
            ),
    decreases n,
{
    if n > 0 {
        lemma_direct_files(cwd, files, n - 1);
        let before = direct_files(cwd, files, n - 1);
        assert forall|k: int| 0 <= k < direct_files(cwd, files, n).len() implies files.contains(
            #[trigger] direct_files(cwd, files, n)[k],
        ) by {
            if k < before.len() {
                assert(direct_files(cwd, files, n)[k] == before[k]);
            } else {
                assert(direct_files(cwd, files, n)[k] == files[n - 1]);
            }
        }
    }
}

/// A test run starts with the entry file, where there is one.
pub proof fn law_tests_start_with_the_entry(
    cwd: Seq<char>,
    base: Option<Seq<char>>,
    files: Seq<Seq<char>>,
)
    requires
        canonical_of(cwd, base, files) is Some,
    ensures
        entry_first(files, canonical_of(cwd, base, files)).len() == files.len(),
        entry_first(files, canonical_of(cwd, base, files))[0] == canonical_of(
            cwd,
            base,
            files,
        )->0,
{
    let p = canonical_of(cwd, base, files)->0;
    lemma_direct_files(cwd, files, files.len() as int);
    lemma_position_of(files, p);
}

/// The paths of the sources in a directory.
pub open spec fn source_paths(d: EntryDir) -> Seq<Seq<char>> {
    let at = source_positions(d.files@, d.files@.len() as int);
    Seq::new(at.len(), |k: int| path_join(d.path@, d.files@[at[k]].name@))
}

/// A test run starts with the file that a build would take, where the sources
/// that were found and the directory tell of the same files.
pub proof fn law_tests_and_builds_share_the_entry(d: EntryDir, files: Seq<Seq<char>>)
    requires
        d.base is Some ==> d.has_named == files.contains(named_entry(d.path@, d.base->0@)),
        d.has_main == files.contains(path_join(d.path@, "main.cute"@)),
        direct_files(d.path@, files, files.len() as int).to_multiset()
            == source_paths(d).to_multiset(),
    ensures
        canonical_of(d.path@, opt_view(d.base), files) == entry_of(d),
{
    let a = direct_files(d.path@, files, files.len() as int);
    let b = source_paths(d);
    a.to_multiset_ensures();
    b.to_multiset_ensures();
    if a.len() == 1 {
        assert(a.contains(a[0]));
        assert(b.to_multiset().count(a[0]) > 0);
        assert(b.contains(a[0]));
    }
}

/// Putting the entry file first loses no source and adds none.
pub proof fn law_entry_first_keeps_all(files: Seq<Seq<char>>, entry: Option<Seq<char>>)
    ensures
        entry_first(files, entry).to_multiset() == files.to_multiset(),
{
    match entry {
        Some(p) => {
            let i = position_of(files, p);
            if 0 <= i < files.len() {
                let a = files[0];
                let b = files[i];
                let f1 = files.update(0, b);
                broadcast use group_to_multiset_ensures;

                assert(f1.to_multiset() =~= files.to_multiset().insert(b).remove(a));
                assert(f1[i] == b);
                let f2 = f1.update(i, a);
                assert(f2.to_multiset() =~= f1.to_multiset().insert(a).remove(b));
                assert(f2.to_multiset() =~= files.to_multiset());
            }
        },
        None => {},
    }
}

} // verus!
