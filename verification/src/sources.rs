//! The source files of a project.
//!
//! The walk starts from the entry file and follows imports, breadth first. It
//! asks for one file at a time: the caller says how the file is known, parses
//! it, and says which of its imports have a file.

use crate::ast::{Ident, Item, Module};
use crate::manifest::{DriverError, Manifest};
use crate::text::{
    added, contains_string, copy_strings, debug_string, debug_text, ends_with, has_prefix,
    has_suffix, join, joined, lemma_views_push, same, starts_with, views,
};
use vstd::prelude::*;
use vstd::string::*;

verus! {

/// `rel` as seen from the directory `base`.
pub open spec fn path_join(base: Seq<char>, rel: Seq<char>) -> Seq<char> {
    if starts_with(rel, "/"@) || base.len() == 0 {
        rel
    } else if ends_with(base, "/"@) {
        base + rel
    } else {
        base + "/"@ + rel
    }
}

/// `rel` as seen from the directory `base`.
pub fn join_path(base: &str, rel: &str) -> (r: String)
    ensures
        r@ == path_join(base@, rel@),
{
    if has_prefix(rel, "/") || base.is_empty() {
        rel.to_owned()
    } else if has_suffix(base, "/") {
        base.to_owned().concat(rel)
    } else {
        base.to_owned().concat("/").concat(rel)
    }
}

/// The names of a path.
pub open spec fn segment_names(path: Seq<Ident>) -> Seq<Seq<char>> {
    Seq::new(path.len(), |i: int| path[i].name@)
}

/// The file of a module path: a directory for each segment but the last.
pub open spec fn module_file(root: Seq<char>, path: Seq<Ident>, n: int) -> Seq<char>
    decreases n,
{
    if n <= 0 {
        root
    } else if n == path.len() {
        path_join(module_file(root, path, n - 1), path[n - 1].name@ + ".cute"@)
    } else {
        path_join(module_file(root, path, n - 1), path[n - 1].name@)
    }
}

/// An imported module, as it was written and as a file.
#[derive(Debug, Clone)]
pub struct UseTarget {
    pub dotted: String,
    pub file: String,
}

/// The path belongs to the Qt bindings, which are always there.
pub open spec fn is_qt_path(path: Seq<Ident>) -> bool {
    path.len() > 0 && path[0].name@ == "qt"@
}

/// The modules that the first `n` items import, each as it was written and as a
/// file.
pub open spec fn use_targets(
    root: Seq<char>,
    items: Seq<Item>,
    n: int,
) -> Seq<(Seq<char>, Seq<char>)>
    decreases n,
{
    if n <= 0 {
        Seq::empty()
    } else {
        let before = use_targets(root, items, n - 1);
        match items[n - 1] {
            Item::Use(u) => if is_qt_path(u.path@) {
                before
            } else {
                before.push(
                    (
                        join(segment_names(u.path@), "."@),
                        module_file(root, u.path@, u.path@.len() as int),
                    ),
                )
            },
            _ => before,
        }
    }
}

/// The targets by their texts.
pub open spec fn target_texts(v: Seq<UseTarget>) -> Seq<(Seq<char>, Seq<char>)> {
    Seq::new(v.len(), |i: int| (v[i].dotted@, v[i].file@))
}

fn dotted_path(path: &Vec<Ident>) -> (r: String)
    ensures
        r@ == join(segment_names(path@), "."@),
{
    let mut parts: Vec<String> = Vec::new();
    let mut i: usize = 0;
    while i < path.len()
        invariant
            i <= path@.len(),
            views(parts@) == segment_names(path@).take(i as int),
        decreases path@.len() - i,
    {
        proof {
            lemma_views_push(parts@, path@[i as int].name);
        }
        parts.push(path[i].name.clone());
        i += 1;
        assert(views(parts@) =~= segment_names(path@).take(i as int));
    }
    assert(views(parts@) =~= segment_names(path@));
    joined(&parts, ".")
}

fn file_of_module(root: &str, path: &Vec<Ident>) -> (r: String)
    ensures
        r@ == module_file(root@, path@, path@.len() as int),
{
    let mut file = root.to_owned();
    let n: usize = path.len();
    let mut i: usize = 0;
    while i < n
        invariant
            i <= n,
            n == path@.len(),
            file@ == module_file(root@, path@, i as int),
        decreases n - i,
    {
        if i + 1 == n {
            let leaf = path[i].name.clone().concat(".cute");
            file = join_path(file.as_str(), leaf.as_str());
        } else {
            file = join_path(file.as_str(), path[i].name.as_str());
        }
        i += 1;
    }
    file
}

/// The modules that a module imports. Those under `qt` are always there and do
/// not count.
pub fn collect_use_targets(root: &str, module: &Module) -> (r: Vec<UseTarget>)
    ensures
        target_texts(r@) == use_targets(root@, module.items@, module.items@.len() as int),
{
    let items = &module.items;
    let mut out: Vec<UseTarget> = Vec::new();
    let mut i: usize = 0;
    assert(target_texts(out@) =~= use_targets(root@, items@, 0));
    while i < items.len()
        invariant
            i <= items@.len(),
            target_texts(out@) == use_targets(root@, items@, i as int),
        decreases items@.len() - i,
    {
        match &items[i] {
            Item::Use(u) => {
                let qt = u.path.len() > 0 && same(u.path[0].name.as_str(), "qt");
                if !qt {
                    let ghost before = out@;
                    let target = UseTarget {
                        dotted: dotted_path(&u.path),
                        file: file_of_module(root, &u.path),
                    };
                    let ghost tv = (target.dotted@, target.file@);
                    out.push(target);
                    assert(target_texts(out@) =~= target_texts(before).push(tv));
                }
            },
            _ => {},
        }
        i += 1;
    }
    out
}

/// A walk over the source files.
#[derive(Debug)]
pub struct SourceWalk {
    /// The directory that imports are resolved from.
    pub root: String,
    /// The files still to visit, the next one first.
    pub queue: Vec<String>,
    /// The files that were visited, by their canonical paths.
    pub seen: Vec<String>,
    /// The modules of the visited files, in the order of the visits.
    pub modules: Vec<Module>,
}

/// Each path as seen from the directory.
pub open spec fn joined_paths(dir: Seq<char>, rels: Seq<Seq<char>>) -> Seq<Seq<char>> {
    Seq::new(rels.len(), |i: int| path_join(dir, rels[i]))
}

/// The first files: the entry, then the manifest's sources, then the extras.
pub open spec fn first_files(
    input: Seq<char>,
    manifest_dir: Option<Seq<char>>,
    sources: Seq<Seq<char>>,
    extras: Seq<Seq<char>>,
) -> Seq<Seq<char>> {
    seq![input] + (match manifest_dir {
        Some(d) => joined_paths(d, sources),
        None => Seq::empty(),
    }) + extras
}

/// The directory that imports are resolved from: that of the manifest, or else
/// that of the entry.
pub open spec fn root_dir(
    manifest_dir: Option<Seq<char>>,
    input_dir: Option<Seq<char>>,
) -> Seq<char> {
    match manifest_dir {
        Some(d) => d,
        None => match input_dir {
            Some(d) => d,
            None => "."@,
        },
    }
}

/// The files of the manifest's sources.
pub fn source_files(dir: &str, manifest: &Manifest) -> (r: Vec<String>)
    ensures
        views(r@) == joined_paths(dir@, views(manifest.sources.paths@)),
{
    join_all(dir, &manifest.sources.paths)
}

fn join_all(dir: &str, rels: &Vec<String>) -> (r: Vec<String>)
    ensures
        views(r@) == joined_paths(dir@, views(rels@)),
{
    let mut out: Vec<String> = Vec::new();
    let mut i: usize = 0;
    while i < rels.len()
        invariant
            i <= rels@.len(),
            views(out@) == joined_paths(dir@, views(rels@)).take(i as int),
        decreases rels@.len() - i,
    {
        let p = join_path(dir, rels[i].as_str());
        proof {
            lemma_views_push(out@, p);
        }
        out.push(p);
        i += 1;
        assert(views(out@) =~= joined_paths(dir@, views(rels@)).take(i as int));
    }
    assert(views(out@) =~= joined_paths(dir@, views(rels@)));
    out
}

impl SourceWalk {
    /// The walk from an entry file.
    pub fn start(
        input: &str,
        manifest: &Manifest,
        manifest_dir: &Option<String>,
        input_dir: &Option<String>,
        extras: &Vec<String>,
    ) -> (r: SourceWalk)
        ensures
            r.root@ == root_dir(
                crate::text::opt_view(*manifest_dir),
                crate::text::opt_view(*input_dir),
            ),
            views(r.queue@) == first_files(
                input@,
                crate::text::opt_view(*manifest_dir),
                views(manifest.sources.paths@),
                views(extras@),
            ),
            r.seen@.len() == 0,
            r.modules@.len() == 0,
    {
        let mut queue: Vec<String> = Vec::new();
        queue.push(input.to_owned());
        assert(views(queue@) =~= seq![input@]);
        let listed = match manifest_dir {
            Some(d) => source_files(d.as_str(), manifest),
            None => {
                let none: Vec<String> = Vec::new();
                assert(views(none@) =~= Seq::<Seq<char>>::empty());
                none
            },
        };
        let queue = crate::text::chain(crate::text::chain(queue, listed), copy_strings(extras));
        let root = match manifest_dir {
            Some(d) => d.clone(),
            None => match input_dir {
                Some(d) => d.clone(),
                None => ".".to_owned(),
            },
        };
        SourceWalk { root, queue, seen: Vec::new(), modules: Vec::new() }
    }

    /// The next file to visit.
    pub fn next(&mut self) -> (r: Option<String>)
        ensures
            match r {
                Some(f) => {
                    &&& old(self).queue@.len() > 0
                    &&& f == old(self).queue@[0]
                    &&& final(self).queue@ == old(self).queue@.drop_first()
                },
                None => old(self).queue@.len() == 0 && final(self).queue@ == old(self).queue@,
            },
            final(self).root == old(self).root,
            final(self).seen == old(self).seen,
            final(self).modules == old(self).modules,
    {
        if self.queue.len() == 0 {
            return None;
        }
        let f = self.queue.remove(0);
        assert(self.queue@ =~= old(self).queue@.drop_first());
        Some(f)
    }

    /// Notes the visit of the file with this canonical path, and says whether
    /// it is the first one.
    pub fn enter(&mut self, canonical: &str) -> (r: bool)
        ensures
            r == !views(old(self).seen@).contains(canonical@),
            views(final(self).seen@) == added(views(old(self).seen@), canonical@),
            final(self).root == old(self).root,
            final(self).queue == old(self).queue,
            final(self).modules == old(self).modules,
    {
        if contains_string(&self.seen, canonical) {
            return false;
        }
        let ghost before = self.seen@;
        self.seen.push(canonical.to_owned());
        assert(views(self.seen@) =~= views(before).push(canonical@));
        true
    }

    /// Takes in the module of the file that was visited, and queues its
    /// imports. `exists` says of each import whether it has a file; the first
    /// without one is an error.
    pub fn absorb(&mut self, module: Module, exists: &Vec<bool>) -> (r: Result<(), DriverError>)
        requires
            exists@.len() == use_targets(
                old(self).root@,
                module.items@,
                module.items@.len() as int,
            ).len(),
        ensures
            match r {
                Ok(_) => {
                    let t = use_targets(
                        old(self).root@,
                        module.items@,
                        module.items@.len() as int,
                    );
                    &&& forall|i: int| 0 <= i < t.len() ==> exists@[i]
                    &&& views(final(self).queue@) == views(old(self).queue@) + Seq::new(
                        t.len(),
                        |i: int| t[i].1,
                    )
                    &&& final(self).modules@ == old(self).modules@.push(module)
                    &&& final(self).root == old(self).root
                    &&& final(self).seen == old(self).seen
                },
                Err(DriverError::UseNotFound { use_path, resolved }) => {
                    let t = use_targets(
                        old(self).root@,
                        module.items@,
                        module.items@.len() as int,
                    );
                    &&& exists|i: int|
                        0 <= i < t.len() && !exists@[i] && (forall|k: int|
                            0 <= k < i ==> exists@[k]) && #[trigger] t[i] == (
                            use_path@,
                            resolved@,
                        )
                    &&& *final(self) == *old(self)
                },
                Err(_) => false,
            },
    {
        let targets = collect_use_targets(self.root.as_str(), &module);
        let ghost t = use_targets(self.root@, module.items@, module.items@.len() as int);
        assert(target_texts(targets@).len() == targets@.len());
        let mut files: Vec<String> = Vec::new();
        let mut i: usize = 0;
        while i < targets.len()
            invariant
                i <= targets@.len(),
                targets@.len() == exists@.len(),
                target_texts(targets@) == t,
                views(files@) == Seq::new(t.len(), |k: int| t[k].1).take(i as int),
                forall|k: int| 0 <= k < i ==> exists@[k],
                t == use_targets(
                    old(self).root@,
                    module.items@,
                    module.items@.len() as int,
                ),
            decreases targets@.len() - i,
        {
            assert(target_texts(targets@)[i as int] == (
                targets@[i as int].dotted@,
                targets@[i as int].file@,
            ));
            if !exists[i] {
                assert(t[i as int] == (targets@[i as int].dotted@, targets@[i as int].file@));
                return Err(
                    DriverError::UseNotFound {
                        use_path: targets[i].dotted.clone(),
                        resolved: targets[i].file.clone(),
                    },
                );
            }
            proof {
                lemma_views_push(files@, targets@[i as int].file);
            }
            files.push(targets[i].file.clone());
            i += 1;
            assert(views(files@) =~= Seq::new(t.len(), |k: int| t[k].1).take(i as int));
        }
        assert(views(files@) =~= Seq::new(t.len(), |k: int| t[k].1));
        let ghost before = self.queue@;
        let ghost fs = files@;
        self.queue.append(&mut files);
        assert(views(self.queue@) =~= views(before) + views(fs));
        self.modules.push(module);
        Ok(())
    }
}

// ---- bindings of the project ------------------------------------------------------------

/// The binding files that a manifest names; none without a manifest.
pub fn manifest_binding_files(manifest: &Manifest, manifest_dir: &Option<String>) -> (r: Vec<
    String,
>)
    ensures
        views(r@) == match manifest_dir {
            Some(d) => joined_paths(d@, views(manifest.bindings.paths@)),
            None => Seq::empty(),
        },
{
    match manifest_dir {
        Some(d) => join_all(d.as_str(), &manifest.bindings.paths),
        None => {
            let none: Vec<String> = Vec::new();
            assert(views(none@) =~= Seq::<Seq<char>>::empty());
            none
        },
    }
}

/// The first of the parsed bindings from `i` on that is none.
pub open spec fn first_failure(v: Seq<Result<Module, String>>, i: int) -> Option<int>
    decreases v.len() - i,
{
    if i < 0 || i >= v.len() {
        None
    } else if v[i] is Err {
        Some(i)
    } else {
        first_failure(v, i + 1)
    }
}

/// The bindings of a project, in their order. `parsed` is what the parser gave
/// for each file; the first that cannot be parsed is an error.
pub fn load_manifest_bindings(
    files: &Vec<String>,
    parsed: Vec<Result<Module, String>>,
) -> (r: Result<Vec<Module>, DriverError>)
    requires
        files@.len() == parsed@.len(),
    ensures
        match first_failure(parsed@, 0) {
            Some(i) => match r {
                Err(DriverError::Parse(e)) => e@ == debug_text(files@[i]@) + ": "@
                    + parsed@[i]->Err_0@,
                _ => false,
            },
            None => match r {
                Ok(v) => v@.len() == parsed@.len() && forall|i: int|
                    0 <= i < v@.len() ==> parsed@[i] == Ok::<Module, String>(#[trigger] v@[i]),
                Err(_) => false,
            },
        },
{
    let ghost ps = parsed@;
    let mut out: Vec<Module> = Vec::new();
    for p in it: parsed
        invariant
            it.seq() == ps,
            files@.len() == ps.len(),
            out@.len() == it.index(),
            first_failure(ps, 0) == first_failure(ps, it.index() as int),
            forall|i: int|
                0 <= i < it.index() ==> ps[i] == Ok::<Module, String>(#[trigger] out@[i]),
    {
        let ghost this = p;
        assert(this == ps[it.index() as int]);
        let at: usize = out.len();
        match p {
            Ok(m) => {
                out.push(m);
            },
            Err(e) => {
                let name = debug_string(files[at].as_str());
                return Err(DriverError::Parse(name.concat(": ").concat(e.as_str())));
            },
        }
    }
    Ok(out)
}

/// Where an installed library has its binding.
pub open spec fn library_binding(prefix: Seq<char>, name: Seq<char>) -> Seq<char> {
    path_join(path_join(prefix, "share/cute/bindings"@), name + ".qpi"@)
}

/// Where an installed library has its binding.
pub fn library_binding_file(prefix: &str, name: &str) -> (r: String)
    ensures
        r@ == library_binding(prefix@, name@),
{
    let dir = join_path(prefix, "share/cute/bindings");
    join_path(dir.as_str(), name.to_owned().concat(".qpi").as_str())
}

/// What was found of a library that a manifest depends on.
#[derive(Debug)]
pub enum LibraryLookup {
    /// It is not installed.
    Missing,
    /// It is installed at `prefix`, and its binding cannot be read.
    Unreadable { prefix: String, error: String },
    /// The binding was read at `prefix`, and the parser gave this.
    Read { prefix: String, parsed: Result<Module, String> },
}

/// Why the library of this name cannot be used.
pub open spec fn lookup_error(name: Seq<char>, l: LibraryLookup) -> Option<Seq<char>> {
    match l {
        LibraryLookup::Missing => Some(
            "[cute_libraries] dep `"@ + name
                + "` not found in ~/.cache/cute/libraries/. Build the library with `cute build` from its source dir, or (Commit 3) `cute install <path-or-git-url>`."@,
        ),
        LibraryLookup::Unreadable { prefix, error } => Some(
            "[cute_libraries] dep `"@ + name + "` install at "@ + debug_text(prefix@)
                + " is missing the .qpi binding ("@ + error@ + "). Re-build the library."@,
        ),
        LibraryLookup::Read { prefix, parsed } => match parsed {
            Ok(_) => None,
            Err(e) => Some(debug_text(library_binding(prefix@, name)) + ": "@ + e@),
        },
    }
}

/// The first of the libraries from `i` on that cannot be used.
pub open spec fn first_unusable(names: Seq<Seq<char>>, v: Seq<LibraryLookup>, i: int) -> Option<int>
    decreases v.len() - i,
{
    if i < 0 || i >= v.len() {
        None
    } else if lookup_error(names[i], v[i]) is Some {
        Some(i)
    } else {
        first_unusable(names, v, i + 1)
    }
}

/// The module of a library that was read.
pub open spec fn lookup_module(l: LibraryLookup) -> Option<Module> {
    match l {
        LibraryLookup::Read { prefix, parsed } => match parsed {
            Ok(m) => Some(m),
            Err(_) => None,
        },
        _ => None,
    }
}

/// The bindings of the libraries that a manifest depends on, in its order. The
/// first that cannot be used is an error.
pub fn load_library_bindings(
    deps: &Vec<String>,
    found: Vec<LibraryLookup>,
) -> (r: Result<Vec<Module>, DriverError>)
    requires
        deps@.len() == found@.len(),
    ensures
        match first_unusable(views(deps@), found@, 0) {
            Some(i) => match r {
                Err(DriverError::Parse(e)) => found@[i] is Read && lookup_error(
                    deps@[i]@,
                    found@[i],
                ) == Some(e@),
                Err(DriverError::Manifest(e)) => !(found@[i] is Read) && lookup_error(
                    deps@[i]@,
                    found@[i],
                ) == Some(e@),
                _ => false,
            },
            None => match r {
                Ok(v) => v@.len() == found@.len() && forall|i: int|
                    0 <= i < v@.len() ==> lookup_module(found@[i]) == Some(#[trigger] v@[i]),
                Err(_) => false,
            },
        },
{
    let ghost fs = found@;
    let ghost names = views(deps@);
    let mut out: Vec<Module> = Vec::new();
    for l in it: found
        invariant
            it.seq() == fs,
            deps@.len() == fs.len(),
            names == views(deps@),
            out@.len() == it.index(),
            first_unusable(names, fs, 0) == first_unusable(names, fs, it.index() as int),
            forall|i: int|
                0 <= i < it.index() ==> lookup_module(fs[i]) == Some(#[trigger] out@[i]),
    {
        let ghost this = l;
        assert(this == fs[it.index() as int]);
        let at: usize = out.len();
        let name = deps[at].as_str();
        assert(names[it.index() as int] == name@);
        match l {
            LibraryLookup::Missing => {
                let m = "[cute_libraries] dep `".to_owned().concat(name).concat(
                    "` not found in ~/.cache/cute/libraries/. Build the library with `cute build` from its source dir, or (Commit 3) `cute install <path-or-git-url>`.",
                );
                return Err(DriverError::Manifest(m));
            },
            LibraryLookup::Unreadable { prefix, error } => {
                let m = "[cute_libraries] dep `".to_owned().concat(name).concat(
                    "` install at ",
                ).concat(debug_string(prefix.as_str()).as_str()).concat(
                    " is missing the .qpi binding (",
                ).concat(error.as_str()).concat("). Re-build the library.");
                return Err(DriverError::Manifest(m));
            },
            LibraryLookup::Read { prefix, parsed } => match parsed {
                Ok(m) => {
                    out.push(m);
                },
                Err(e) => {
                    let file = library_binding_file(prefix.as_str(), name);
                    let m = debug_string(file.as_str()).concat(": ").concat(e.as_str());
                    return Err(DriverError::Parse(m));
                },
            },
        }
    }
    Ok(out)
}

// ---- laws ---------------------------------------------------------------------------

/// Every file is visited once: a second visit of a path is never the first.
pub proof fn law_each_file_once(seen: Seq<Seq<char>>, canonical: Seq<char>)
    ensures
        added(seen, canonical).contains(canonical),
        added(added(seen, canonical), canonical) == added(seen, canonical),
{
    let a = added(seen, canonical);
    if !seen.contains(canonical) {
        assert(a[seen.len() as int] == canonical);
    }
}

} // verus!
