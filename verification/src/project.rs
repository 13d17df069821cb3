//! What is known of the modules of a project.

use crate::ast::{FileId, Item, Module, UseDecl, UseKind, UseName};
use crate::frontend::{item_name, item_name_span};
use crate::sources::is_qt_path;
use crate::text::{add_missing, added, opt_view, same, views};
use std::collections::HashMap;
use vstd::prelude::*;

verus! {

broadcast use vstd::std_specs::hash::group_hash_axioms;

/// Module `module` imports module `target`.
#[derive(Debug, Clone)]
pub struct Import {
    pub module: String,
    pub target: String,
}

/// In `module`, `alias` means the module `target`.
#[derive(Debug, Clone)]
pub struct ModuleAlias {
    pub module: String,
    pub alias: String,
    pub target: String,
}

/// In `module`, `local` means the item `name` of the module `source`.
#[derive(Debug, Clone)]
pub struct Selected {
    pub module: String,
    pub local: String,
    pub source: String,
    pub name: String,
}

/// The modules of a project. Of two entries for one name in one module, the
/// later one counts.
#[derive(Debug)]
pub struct ProjectInfo {
    /// The module of each user file, by the number of the file. Binding files
    /// belong to no module.
    pub module_for_file: HashMap<u32, String>,
    pub imports: Vec<Import>,
    pub aliases: Vec<ModuleAlias>,
    pub selective_imports: Vec<Selected>,
    /// The selected names that the module passes on.
    pub re_exports: Vec<Selected>,
    /// The names that every module sees.
    pub prelude_items: Vec<String>,
}

impl Default for ProjectInfo {
    fn default() -> (r: ProjectInfo)
        ensures
            r.module_for_file@ == Map::<u32, String>::empty(),
            r.imports@.len() == 0,
            r.aliases@.len() == 0,
            r.selective_imports@.len() == 0,
            r.re_exports@.len() == 0,
            r.prelude_items@.len() == 0,
    {
        ProjectInfo {
            module_for_file: HashMap::new(),
            imports: Vec::new(),
            aliases: Vec::new(),
            selective_imports: Vec::new(),
            re_exports: Vec::new(),
            prelude_items: Vec::new(),
        }
    }
}

/// The module that a file belongs to.
pub open spec fn module_of_file(file: FileId, project: ProjectInfo) -> Option<Seq<char>> {
    if project.module_for_file@.contains_key(file.0) {
        Some(project.module_for_file@[file.0]@)
    } else {
        None
    }
}

/// The module that a file belongs to.
pub fn module_of(file: FileId, project: &ProjectInfo) -> (r: Option<String>)
    ensures
        opt_view(r) == module_of_file(file, *project),
{
    match project.module_for_file.get(&file.0) {
        Some(m) => Some(m.clone()),
        None => None,
    }
}

// ---- models of the lists ---------------------------------------------------------

pub open spec fn import_texts(v: Seq<Import>) -> Seq<(Seq<char>, Seq<char>)> {
    Seq::new(v.len(), |i: int| (v[i].module@, v[i].target@))
}

pub open spec fn alias_texts(v: Seq<ModuleAlias>) -> Seq<(Seq<char>, Seq<char>, Seq<char>)> {
    Seq::new(v.len(), |i: int| (v[i].module@, v[i].alias@, v[i].target@))
}

pub open spec fn selected_texts(v: Seq<Selected>) -> Seq<
    (Seq<char>, Seq<char>, Seq<char>, Seq<char>),
> {
    Seq::new(v.len(), |i: int| (v[i].module@, v[i].local@, v[i].source@, v[i].name@))
}

/// A user module: its name, where the file has one, and whether every other
/// module imports it.
#[derive(Debug, Clone)]
pub struct ModuleFacts {
    pub name: Option<String>,
    pub ambient: bool,
}

/// The use declaration counts: it has a path, which is not one of Qt's.
pub open spec fn counts(u: UseDecl) -> bool {
    u.path@.len() > 0 && !is_qt_path(u.path@)
}

/// The modules that the first `n` items of the module `name` import.
pub open spec fn item_imports(
    name: Seq<char>,
    items: Seq<Item>,
    n: int,
) -> Seq<(Seq<char>, Seq<char>)>
    decreases n,
{
    if n <= 0 {
        Seq::empty()
    } else {
        let before = item_imports(name, items, n - 1);
        match items[n - 1] {
            Item::Use(u) => if counts(u) && u.kind is Module {
                before.push((name, u.path@.last().name@))
            } else {
                before
            },
            _ => before,
        }
    }
}

/// The aliases that the first `n` items of the module `name` introduce.
pub open spec fn item_aliases(
    name: Seq<char>,
    items: Seq<Item>,
    n: int,
) -> Seq<(Seq<char>, Seq<char>, Seq<char>)>
    decreases n,
{
    if n <= 0 {
        Seq::empty()
    } else {
        let before = item_aliases(name, items, n - 1);
        match items[n - 1] {
            Item::Use(u) => match u.kind {
                UseKind::Module(Some(alias)) => if counts(u) {
                    before.push((name, alias.name@, u.path@.last().name@))
                } else {
                    before
                },
                _ => before,
            },
            _ => before,
        }
    }
}

/// The name that a selected name has in the importing module.
pub open spec fn local_name(n: UseName) -> Seq<char> {
    match n.alias {
        Some(a) => a.name@,
        None => n.name.name@,
    }
}

/// The selected names of one declaration.
pub open spec fn selected_of(
    name: Seq<char>,
    source: Seq<char>,
    v: Seq<UseName>,
) -> Seq<(Seq<char>, Seq<char>, Seq<char>, Seq<char>)> {
    Seq::new(v.len(), |i: int| (name, local_name(v[i]), source, v[i].name.name@))
}

/// The names that the first `n` items of the module `name` select, or of those
/// the ones that it passes on.
pub open spec fn item_selected(
    name: Seq<char>,
    items: Seq<Item>,
    only_pub: bool,
    n: int,
) -> Seq<(Seq<char>, Seq<char>, Seq<char>, Seq<char>)>
    decreases n,
{
    if n <= 0 {
        Seq::empty()
    } else {
        let before = item_selected(name, items, only_pub, n - 1);
        match items[n - 1] {
            Item::Use(u) => match u.kind {
                UseKind::Names(v) => if counts(u) && (u.is_pub || !only_pub) {
                    before + selected_of(name, u.path@.last().name@, v@)
                } else {
                    before
                },
                _ => before,
            },
            _ => before,
        }
    }
}

/// The modules of the first `n` files, by the number of the file; of two
/// modules in one file the later one counts.
pub open spec fn file_modules(
    ms: Seq<Module>,
    facts: Seq<ModuleFacts>,
    n: int,
) -> Map<u32, Seq<char>>
    decreases n,
{
    if n <= 0 {
        Map::empty()
    } else {
        let before = file_modules(ms, facts, n - 1);
        match facts[n - 1].name {
            Some(name) => before.insert(ms[n - 1].span.file.0, name@),
            None => before,
        }
    }
}

pub open spec fn module_imports(
    ms: Seq<Module>,
    facts: Seq<ModuleFacts>,
    n: int,
) -> Seq<(Seq<char>, Seq<char>)>
    decreases n,
{
    if n <= 0 {
        Seq::empty()
    } else {
        let before = module_imports(ms, facts, n - 1);
        match facts[n - 1].name {
            Some(name) => before + item_imports(
                name@,
                ms[n - 1].items@,
                ms[n - 1].items@.len() as int,
            ),
            None => before,
        }
    }
}

pub open spec fn module_aliases(
    ms: Seq<Module>,
    facts: Seq<ModuleFacts>,
    n: int,
) -> Seq<(Seq<char>, Seq<char>, Seq<char>)>
    decreases n,
{
    if n <= 0 {
        Seq::empty()
    } else {
        let before = module_aliases(ms, facts, n - 1);
        match facts[n - 1].name {
            Some(name) => before + item_aliases(
                name@,
                ms[n - 1].items@,
                ms[n - 1].items@.len() as int,
            ),
            None => before,
        }
    }
}

pub open spec fn module_selected(
    ms: Seq<Module>,
    facts: Seq<ModuleFacts>,
    only_pub: bool,
    n: int,
) -> Seq<(Seq<char>, Seq<char>, Seq<char>, Seq<char>)>
    decreases n,
{
    if n <= 0 {
        Seq::empty()
    } else {
        let before = module_selected(ms, facts, only_pub, n - 1);
        match facts[n - 1].name {
            Some(name) => before + item_selected(
                name@,
                ms[n - 1].items@,
                only_pub,
                ms[n - 1].items@.len() as int,
            ),
            None => before,
        }
    }
}

/// The ambient modules that the module `name` imports: those of the first `n`
/// with another name.
pub open spec fn ambient_imports(
    name: Seq<char>,
    facts: Seq<ModuleFacts>,
    n: int,
) -> Seq<(Seq<char>, Seq<char>)>
    decreases n,
{
    if n <= 0 {
        Seq::empty()
    } else {
        let before = ambient_imports(name, facts, n - 1);
        match facts[n - 1].name {
            Some(other) => if facts[n - 1].ambient && other@ != name {
                before.push((name, other@))
            } else {
                before
            },
            None => before,
        }
    }
}

/// The ambient modules that the first `n` modules import.
pub open spec fn all_ambient_imports(facts: Seq<ModuleFacts>, n: int) -> Seq<
    (Seq<char>, Seq<char>),
>
    decreases n,
{
    if n <= 0 {
        Seq::empty()
    } else {
        let before = all_ambient_imports(facts, n - 1);
        match facts[n - 1].name {
            Some(name) => before + ambient_imports(name@, facts, facts.len() as int),
            None => before,
        }
    }
}

/// `names` with those that the first `n` items introduce, each once.
pub open spec fn with_item_names(names: Seq<Seq<char>>, items: Seq<Item>, n: int) -> Seq<Seq<char>>
    decreases n,
{
    if n <= 0 {
        names
    } else {
        let before = with_item_names(names, items, n - 1);
        match item_name(items[n - 1]) {
            Some((m, _)) => added(before, m),
            None => before,
        }
    }
}

/// The names that the first `n` binding modules introduce, each once.
pub open spec fn prelude_names(ms: Seq<Module>, n: int) -> Seq<Seq<char>>
    decreases n,
{
    if n <= 0 {
        Seq::empty()
    } else {
        with_item_names(
            prelude_names(ms, n - 1),
            ms[n - 1].items@,
            ms[n - 1].items@.len() as int,
        )
    }
}

/// The information is that of these modules: their files, their imports (those
/// that they declare, and the ambient modules besides), their aliases and
/// selected names, and the names of the bindings.
pub open spec fn is_info_of(
    ms: Seq<Module>,
    facts: Seq<ModuleFacts>,
    bindings: Seq<Module>,
    r: ProjectInfo,
) -> bool {
    let n = ms.len() as int;
    &&& r.module_for_file@.dom() == file_modules(ms, facts, n).dom()
    &&& forall|f: u32| #[trigger]
        r.module_for_file@.contains_key(f) ==> r.module_for_file@[f]@ == file_modules(ms, facts, n)[f]
    &&& import_texts(r.imports@) == module_imports(ms, facts, n) + all_ambient_imports(
        facts,
        facts.len() as int,
    )
    &&& alias_texts(r.aliases@) == module_aliases(ms, facts, n)
    &&& selected_texts(r.selective_imports@) == module_selected(ms, facts, false, n)
    &&& selected_texts(r.re_exports@) == module_selected(ms, facts, true, n)
    &&& views(r.prelude_items@) == prelude_names(bindings, bindings.len() as int)
}

// ---- collecting --------------------------------------------------------------------

fn collect_imports(out: Vec<Import>, name: &str, items: &Vec<Item>) -> (r: Vec<Import>)
    ensures
        import_texts(r@) == import_texts(out@) + item_imports(
            name@,
            items@,
            items@.len() as int,
        ),
{
    let ghost start = import_texts(out@);
    let mut out = out;
    let mut i: usize = 0;
    assert(import_texts(out@) =~= start + item_imports(name@, items@, 0));
    while i < items.len()
        invariant
            i <= items@.len(),
            import_texts(out@) == start + item_imports(name@, items@, i as int),
        decreases items@.len() - i,
    {
        match &items[i] {
            Item::Use(u) => {
                let k: usize = u.path.len();
                if k > 0 && !same(u.path[0].name.as_str(), "qt") {
                    match &u.kind {
                        UseKind::Module(_) => {
                            let ghost before = out@;
                            out.push(
                                Import {
                                    module: name.to_owned(),
                                    target: u.path[k - 1].name.clone(),
                                },
                            );
                            assert(import_texts(out@) =~= import_texts(before).push(
                                (name@, u.path@.last().name@),
                            ));
                            assert(import_texts(out@) =~= start + item_imports(name@, items@, i + 1));
                        },
                        UseKind::Names(_) => {},
                    }
                }
            },
            _ => {},
        }
        i += 1;
    }
    out
}

fn collect_aliases(out: Vec<ModuleAlias>, name: &str, items: &Vec<Item>) -> (r: Vec<ModuleAlias>)
    ensures
        alias_texts(r@) == alias_texts(out@) + item_aliases(name@, items@, items@.len() as int),
{
    let ghost start = alias_texts(out@);
    let mut out = out;
    let mut i: usize = 0;
    assert(alias_texts(out@) =~= start + item_aliases(name@, items@, 0));
    while i < items.len()
        invariant
            i <= items@.len(),
            alias_texts(out@) == start + item_aliases(name@, items@, i as int),
        decreases items@.len() - i,
    {
        match &items[i] {
            Item::Use(u) => {
                let k: usize = u.path.len();
                if k > 0 && !same(u.path[0].name.as_str(), "qt") {
                    match &u.kind {
                        UseKind::Module(Some(alias)) => {
                            let ghost before = out@;
                            out.push(
                                ModuleAlias {
                                    module: name.to_owned(),
                                    alias: alias.name.clone(),
                                    target: u.path[k - 1].name.clone(),
                                },
                            );
                            assert(alias_texts(out@) =~= alias_texts(before).push(
                                (name@, alias.name@, u.path@.last().name@),
                            ));
                            assert(alias_texts(out@) =~= start + item_aliases(name@, items@, i + 1));
                        },
                        _ => {},
                    }
                }
            },
            _ => {},
        }
        i += 1;
    }
    out
}

fn collect_names(
    out: Vec<Selected>,
    name: &str,
    source: &str,
    names: &Vec<UseName>,
) -> (r: Vec<Selected>)
    ensures
        selected_texts(r@) == selected_texts(out@) + selected_of(name@, source@, names@),
{
    let ghost start = selected_texts(out@);
    let ghost all = selected_of(name@, source@, names@);
    let mut out = out;
    let mut i: usize = 0;
    assert(selected_texts(out@) =~= start + all.take(0));
    while i < names.len()
        invariant
            i <= names@.len(),
            all == selected_of(name@, source@, names@),
            selected_texts(out@) == start + all.take(i as int),
        decreases names@.len() - i,
    {
        let local = match &names[i].alias {
            Some(a) => a.name.clone(),
            None => names[i].name.name.clone(),
        };
        let ghost before = out@;
        let ghost text = (name@, local@, source@, names@[i as int].name.name@);
        out.push(
            Selected {
                module: name.to_owned(),
                local,
                source: source.to_owned(),
                name: names[i].name.name.clone(),
            },
        );
        assert(selected_texts(out@) =~= selected_texts(before).push(text));
        assert(text == all[i as int]);
        i += 1;
        assert(selected_texts(out@) =~= start + all.take(i as int));
    }
    assert(all.take(names@.len() as int) =~= all);
    out
}

fn collect_selected(
    out: Vec<Selected>,
    name: &str,
    items: &Vec<Item>,
    only_pub: bool,
) -> (r: Vec<Selected>)
    ensures
        selected_texts(r@) == selected_texts(out@) + item_selected(
            name@,
            items@,
            only_pub,
            items@.len() as int,
        ),
{
    let ghost start = selected_texts(out@);
    let mut out = out;
    let mut i: usize = 0;
    assert(selected_texts(out@) =~= start + item_selected(name@, items@, only_pub, 0));
    while i < items.len()
        invariant
            i <= items@.len(),
            selected_texts(out@) == start + item_selected(name@, items@, only_pub, i as int),
        decreases items@.len() - i,
    {
        match &items[i] {
            Item::Use(u) => {
                let k: usize = u.path.len();
                if k > 0 && !same(u.path[0].name.as_str(), "qt") && (u.is_pub || !only_pub) {
                    match &u.kind {
                        UseKind::Names(names) => {
                            out = collect_names(out, name, u.path[k - 1].name.as_str(), names);
                            assert(selected_texts(out@) =~= start + item_selected(
                                name@,
                                items@,
                                only_pub,
                                i + 1,
                            ));
                        },
                        UseKind::Module(_) => {},
                    }
                }
            },
            _ => {},
        }
        i += 1;
    }
    out
}

fn collect_ambient(out: Vec<Import>, name: &str, facts: &Vec<ModuleFacts>) -> (r: Vec<Import>)
    ensures
        import_texts(r@) == import_texts(out@) + ambient_imports(
            name@,
            facts@,
            facts@.len() as int,
        ),
{
    let ghost start = import_texts(out@);
    let mut out = out;
    let mut i: usize = 0;
    assert(import_texts(out@) =~= start + ambient_imports(name@, facts@, 0));
    while i < facts.len()
        invariant
            i <= facts@.len(),
            import_texts(out@) == start + ambient_imports(name@, facts@, i as int),
        decreases facts@.len() - i,
    {
        match &facts[i].name {
            Some(other) => {
                if facts[i].ambient && !same(other.as_str(), name) {
                    let ghost before = out@;
                    out.push(Import { module: name.to_owned(), target: other.clone() });
                    assert(import_texts(out@) =~= import_texts(before).push((name@, other@)));
                    assert(import_texts(out@) =~= start + ambient_imports(name@, facts@, i + 1));
                }
            },
            None => {},
        }
        i += 1;
    }
    out
}

fn collect_prelude(bindings: &Vec<Module>) -> (r: Vec<String>)
    ensures
        views(r@) == prelude_names(bindings@, bindings@.len() as int),
{
    let mut out: Vec<String> = Vec::new();
    let mut i: usize = 0;
    assert(views(out@) =~= prelude_names(bindings@, 0));
    while i < bindings.len()
        invariant
            i <= bindings@.len(),
            views(out@) == prelude_names(bindings@, i as int),
        decreases bindings@.len() - i,
    {
        let items = &bindings[i].items;
        let ghost start = views(out@);
        let mut k: usize = 0;
        while k < items.len()
            invariant
                k <= items@.len(),
                views(out@) == with_item_names(start, items@, k as int),
            decreases items@.len() - k,
        {
            match item_name_span(&items[k]) {
                Some((m, _)) => {
                    out = add_missing(out, m);
                },
                None => {},
            }
            k += 1;
        }
        i += 1;
    }
    out
}

/// The module information of a project. `facts` gives, for each module, its
/// name and whether it is ambient.
pub fn build_project_info(
    modules: &Vec<Module>,
    facts: &Vec<ModuleFacts>,
    bindings: &Vec<Module>,
) -> (r: ProjectInfo)
    requires
        facts@.len() == modules@.len(),
    ensures
        is_info_of(modules@, facts@, bindings@, r),
{
    let mut files: HashMap<u32, String> = HashMap::new();
    let mut imports: Vec<Import> = Vec::new();
    let mut aliases: Vec<ModuleAlias> = Vec::new();
    let mut selective: Vec<Selected> = Vec::new();
    let mut re_exports: Vec<Selected> = Vec::new();
    let ghost ms = modules@;
    let ghost fs = facts@;
    proof {
        assert(import_texts(imports@) =~= module_imports(ms, fs, 0));
        assert(alias_texts(aliases@) =~= module_aliases(ms, fs, 0));
        assert(selected_texts(selective@) =~= module_selected(ms, fs, false, 0));
        assert(selected_texts(re_exports@) =~= module_selected(ms, fs, true, 0));
        assert(files@.dom() =~= file_modules(ms, fs, 0).dom());
    }
    let mut i: usize = 0;
    while i < modules.len()
        invariant
            i <= modules@.len(),
            facts@.len() == modules@.len(),
            ms == modules@,
            fs == facts@,
            files@.dom() == file_modules(ms, fs, i as int).dom(),
            forall|f: u32| #[trigger]
                files@.contains_key(f) ==> files@[f]@ == file_modules(ms, fs, i as int)[f],
            import_texts(imports@) == module_imports(ms, fs, i as int),
            alias_texts(aliases@) == module_aliases(ms, fs, i as int),
            selected_texts(selective@) == module_selected(ms, fs, false, i as int),
            selected_texts(re_exports@) == module_selected(ms, fs, true, i as int),
        decreases modules@.len() - i,
    {
        let m = &modules[i];
        match &facts[i].name {
            Some(name) => {
                let ghost before = files@;
                files.insert(m.span.file.0, name.clone());
                proof {
                    let fm = file_modules(ms, fs, i + 1);
                    assert(files@.dom() =~= fm.dom());
                    assert forall|f: u32| #[trigger] files@.contains_key(f) implies files@[f]@ == fm[f] by {
                        if f != m.span.file.0 {
                            assert(before.contains_key(f));
                        }
                    }
                }
                imports = collect_imports(imports, name.as_str(), &m.items);
                aliases = collect_aliases(aliases, name.as_str(), &m.items);
                selective = collect_selected(selective, name.as_str(), &m.items, false);
                re_exports = collect_selected(re_exports, name.as_str(), &m.items, true);
            },
            None => {},
        }
        i += 1;
    }
    let ghost own = import_texts(imports@);
    let mut k: usize = 0;
    assert(import_texts(imports@) =~= own + all_ambient_imports(fs, 0));
    while k < facts.len()
        invariant
            k <= facts@.len(),
            fs == facts@,
            import_texts(imports@) == own + all_ambient_imports(fs, k as int),
        decreases facts@.len() - k,
    {
        match &facts[k].name {
            Some(name) => {
                imports = collect_ambient(imports, name.as_str(), facts);
                assert(import_texts(imports@) =~= own + all_ambient_imports(fs, k + 1));
            },
            None => {},
        }
        k += 1;
    }
    ProjectInfo {
        module_for_file: files,
        imports,
        aliases,
        selective_imports: selective,
        re_exports,
        prelude_items: collect_prelude(bindings),
    }
}

// ---- laws ---------------------------------------------------------------------------

/// An ambient module is imported by every other module.
pub proof fn law_ambient_modules_are_imported(facts: Seq<ModuleFacts>, i: int, j: int)
    requires
        0 <= i < facts.len(),
        0 <= j < facts.len(),
        facts[i].name is Some,
        facts[j].name is Some,
        facts[j].ambient,
        facts[i].name->0@ != facts[j].name->0@,
    ensures
        all_ambient_imports(facts, facts.len() as int).contains(
            (facts[i].name->0@, facts[j].name->0@),
        ),
{
    lemma_ambient_of(facts[i].name->0@, facts, j, facts.len() as int);
    lemma_all_ambient(facts, i, j, facts.len() as int);
}

proof fn lemma_ambient_of(name: Seq<char>, facts: Seq<ModuleFacts>, j: int, n: int)
    requires
        0 <= j < n <= facts.len(),
        facts[j].name is Some,
        facts[j].ambient,
        facts[j].name->0@ != name,
    ensures
        ambient_imports(name, facts, n).contains((name, facts[j].name->0@)),
    decreases n,
{
    let x = (name, facts[j].name->0@);
    let after = ambient_imports(name, facts, n);
    let before = ambient_imports(name, facts, n - 1);
    if j == n - 1 {
        assert(after[before.len() as int] == x);
    } else {
        lemma_ambient_of(name, facts, j, n - 1);
        let k = choose|k: int| 0 <= k < before.len() && before[k] == x;
        assert(after[k] == x);
    }
}

proof fn lemma_all_ambient(facts: Seq<ModuleFacts>, i: int, j: int, n: int)
    requires
        0 <= i < n <= facts.len(),
        facts[i].name is Some,
        facts[j].name is Some,
        ambient_imports(facts[i].name->0@, facts, facts.len() as int).contains(
            (facts[i].name->0@, facts[j].name->0@),
        ),
    ensures
        all_ambient_imports(facts, n).contains((facts[i].name->0@, facts[j].name->0@)),
    decreases n,
{
    let x = (facts[i].name->0@, facts[j].name->0@);
    let after = all_ambient_imports(facts, n);
    let before = all_ambient_imports(facts, n - 1);
    if i == n - 1 {
        let a = ambient_imports(facts[i].name->0@, facts, facts.len() as int);
        let k = choose|k: int| 0 <= k < a.len() && a[k] == x;
        assert(after[before.len() + k] == x);
    } else {
        lemma_all_ambient(facts, i, j, n - 1);
        let k = choose|k: int| 0 <= k < before.len() && before[k] == x;
        assert(after[k] == x);
    }
}

} // verus!
