//! Class names in a project of several modules.
//!
//! Where two modules declare a class of the same name, each of the classes is
//! emitted under a name that starts with its module, and every reference to it
//! is renamed with it. All other names stay as they are. Binding classes, whose
//! files belong to no module, always keep their names.

use crate::ast::{
    Block, CaseArm, ClassDecl, ClassMember, DeinitDecl, Element, ElementMember, EnumDecl,
    EnumVariant, Expr, ExprKind, Field, FnDecl, Ident, InitDecl, Item, LetBinding, LetDecl,
    MapEntry, Module, Param, PropertyDecl, SignalDecl, StateField, StateFieldKind, Stmt, StrPart,
    StructDecl, StyleBody, StyleDecl, StyleEntry, TypeExpr, TypeKind, UseQml, ViewDecl, WidgetDecl,
};
use crate::ast_copy::{
    copy_attributes, copy_flags_decl, copy_generic_params, copy_ident, copy_idents, copy_impl_decl,
    copy_opt_ident, copy_opt_string, copy_pattern, copy_store_decl, copy_suite_decl,
    copy_trait_decl, copy_use_decl, copy_use_qml, same_attributes, same_flags_decl,
    same_generic_params, same_ident, same_idents, same_impl_decl, same_opt_ident, same_pattern,
    same_trait_decl, same_use_decl, same_use_qml,
};
use crate::mangle_refs::{law_every_reference_is_renamed, refs_follow, refs_module};
use crate::naming::{capitalize_first, capitalized};
use crate::project::{module_of, module_of_file, ProjectInfo};
use crate::text::{contains_string, opt_view, same, views};
use vstd::prelude::*;
use vstd::string::*;

verus! {

// ---- the table of emitted names -----------------------------------------------

/// The name under which the class `name` of `module` is emitted.
#[derive(Debug, Clone)]
pub struct EmitName {
    pub module: String,
    pub name: String,
    pub emit: String,
}

/// The names under which the classes of a project are emitted.
#[derive(Debug, Clone)]
pub struct EmitNames {
    /// One entry for each class of a module.
    pub map: Vec<EmitName>,
    /// The class names that more than one declaration has.
    pub colliding_simple_names: Vec<String>,
}

/// Item `i` declares a class `name` in some module.
pub open spec fn declares_class(
    items: Seq<Item>,
    project: ProjectInfo,
    i: int,
    name: Seq<char>,
) -> bool {
    match items[i] {
        Item::Class(c) => c.name.name@ == name && module_of_file(c.span.file, project) is Some,
        _ => false,
    }
}

/// The number of classes `name` that the modules declare in the first `n`
/// items.
pub open spec fn class_count(
    items: Seq<Item>,
    project: ProjectInfo,
    name: Seq<char>,
    n: int,
) -> int
    decreases n,
{
    if n <= 0 {
        0
    } else if declares_class(items, project, n - 1, name) {
        class_count(items, project, name, n - 1) + 1
    } else {
        class_count(items, project, name, n - 1)
    }
}

/// More than one declaration has the class name `name`.
pub open spec fn collides(items: Seq<Item>, project: ProjectInfo, name: Seq<char>) -> bool {
    class_count(items, project, name, items.len() as int) >= 2
}

/// One of the first `n` items declares a class `name` in some module.
pub open spec fn declared_somewhere(
    items: Seq<Item>,
    project: ProjectInfo,
    name: Seq<char>,
    n: int,
) -> bool {
    exists|k: int| 0 <= k < n && #[trigger] declares_class(items, project, k, name)
}

/// One of the first `n` items declares the class `name` of `module`.
pub open spec fn declared_in(
    items: Seq<Item>,
    project: ProjectInfo,
    module: Seq<char>,
    name: Seq<char>,
    n: int,
) -> bool {
    exists|i: int| 0 <= i < n && #[trigger] declared_at(items, project, module, name, i)
}

/// Item `i` declares the class `name` of `module`.
pub open spec fn declared_at(
    items: Seq<Item>,
    project: ProjectInfo,
    module: Seq<char>,
    name: Seq<char>,
    i: int,
) -> bool {
    match items[i] {
        Item::Class(c) => c.name.name@ == name && module_of_file(c.span.file, project) == Some(
            module,
        ),
        _ => false,
    }
}

/// `<Module>__<name>`.
pub open spec fn mangled(module: Seq<char>, name: Seq<char>) -> Seq<char> {
    capitalized(module) + "__"@ + name
}

/// The name that the class `name` of `module` is emitted under, where there is
/// one: its own, or the mangled one where it collides.
pub open spec fn emit_name(
    items: Seq<Item>,
    project: ProjectInfo,
    module: Seq<char>,
    name: Seq<char>,
) -> Option<Seq<char>> {
    if !declared_in(items, project, module, name, items.len() as int) {
        None
    } else if collides(items, project, name) {
        Some(mangled(module, name))
    } else {
        Some(name)
    }
}

/// What the table says of the class `name` of `module`.
pub open spec fn lookup(map: Seq<EmitName>, module: Seq<char>, name: Seq<char>) -> Option<Seq<char>>
    decreases map.len(),
{
    if map.len() == 0 {
        None
    } else if map.last().module@ == module && map.last().name@ == name {
        Some(map.last().emit@)
    } else {
        lookup(map.drop_last(), module, name)
    }
}

/// The name that a reference to the class `simple` is emitted as: `qualifier`
/// says its module, or else the module that the reference stands in.
pub open spec fn resolved(
    names: EmitNames,
    simple: Seq<char>,
    qualifier: Option<Seq<char>>,
    current_module: Option<Seq<char>>,
) -> Option<Seq<char>> {
    match qualifier {
        Some(q) => lookup(names.map@, q, simple),
        None => match current_module {
            Some(c) => lookup(names.map@, c, simple),
            None => None,
        },
    }
}

/// `name` is one of the colliding names.
pub open spec fn is_colliding(names: EmitNames, name: Seq<char>) -> bool {
    views(names.colliding_simple_names@).contains(name)
}

/// The table is the one of `items`.
pub open spec fn names_of(names: EmitNames, items: Seq<Item>, project: ProjectInfo) -> bool {
    &&& forall|name: Seq<char>|
        #[trigger] is_colliding(names, name) <==> collides(items, project, name)
    &&& forall|module: Seq<char>, name: Seq<char>|
        #[trigger] lookup(names.map@, module, name) == emit_name(items, project, module, name)
}

/// The number of classes `name` that the modules declare, counted up to two.
fn counts_twice(items: &Vec<Item>, project: &ProjectInfo, name: &str) -> (r: bool)
    ensures
        r == collides(items@, *project, name@),
{
    let mut n: usize = 0;
    let mut i: usize = 0;
    while i < items.len()
        invariant
            i <= items@.len(),
            n == class_count(items@, *project, name@, i as int),
            n <= i,
        decreases items@.len() - i,
    {
        match &items[i] {
            Item::Class(c) => {
                let user = module_of(c.span.file, project).is_some();
                if user && same(c.name.name.as_str(), name) {
                    n += 1;
                }
            },
            _ => {},
        }
        i += 1;
    }
    n >= 2
}

proof fn lemma_class_count_zero(items: Seq<Item>, project: ProjectInfo, name: Seq<char>, n: int)
    requires
        forall|i: int| 0 <= i < n ==> !#[trigger] declares_class(items, project, i, name),
    ensures
        class_count(items, project, name, n) == 0,
    decreases n,
{
    if n > 0 {
        lemma_class_count_zero(items, project, name, n - 1);
    }
}

impl EmitNames {
    /// The table of the classes among `module`'s items.
    pub fn build(module: &Module, project: &ProjectInfo) -> (r: EmitNames)
        ensures
            names_of(r, module.items@, *project),
    {
        let items = &module.items;
        let mut colliding: Vec<String> = Vec::new();
        let mut map: Vec<EmitName> = Vec::new();
        let mut i: usize = 0;
        while i < items.len()
            invariant
                i <= items@.len(),
                forall|name: Seq<char>|
                    #[trigger] views(colliding@).contains(name) <==> (collides(
                        items@,
                        *project,
                        name,
                    ) && declared_somewhere(items@, *project, name, i as int)),
                forall|mo: Seq<char>, name: Seq<char>|
                    #[trigger] lookup(map@, mo, name) == if !declared_in(
                        items@,
                        *project,
                        mo,
                        name,
                        i as int,
                    ) {
                        None
                    } else if collides(items@, *project, name) {
                        Some(mangled(mo, name))
                    } else {
                        Some(name)
                    },
            decreases items@.len() - i,
        {
            let ghost map0 = map@;
            let ghost col0 = views(colliding@);
            match &items[i] {
                Item::Class(c) => match module_of(c.span.file, project) {
                    Some(mo) => {
                        let twice = counts_twice(items, project, c.name.name.as_str());
                        let emit = if twice {
                            capitalize_first(mo.as_str()).concat("__").concat(c.name.name.as_str())
                        } else {
                            c.name.name.clone()
                        };
                        if twice && !contains_string(&colliding, c.name.name.as_str()) {
                            let ghost old = colliding@;
                            colliding.push(c.name.name.clone());
                            assert(views(colliding@) =~= views(old).push(c.name.name@));
                        }
                        let entry = EmitName { module: mo, name: c.name.name.clone(), emit };
                        map.push(entry);
                        proof {
                            let it = items@;
                            let nm = c.name.name@;
                            assert(declares_class(it, *project, i as int, nm));
                            assert(declared_at(it, *project, mo@, nm, i as int));
                            assert(map@.drop_last() =~= map0);
                            assert forall|name: Seq<char>| #[trigger] views(colliding@).contains(name)
                                <==> (collides(it, *project, name) && declared_somewhere(
                                it,
                                *project,
                                name,
                                i + 1,
                            )) by {
                                if declared_somewhere(it, *project, name, i as int) {
                                    let k = choose|k: int|
                                        0 <= k < i && #[trigger] declares_class(it, *project, k, name);
                                    assert(k < i + 1 && declares_class(it, *project, k, name));
                                }
                                if name == nm {
                                    assert(declares_class(it, *project, i as int, name));
                                }
                                if col0.contains(name) {
                                    let k = choose|k: int| 0 <= k < col0.len() && col0[k] == name;
                                    assert(views(colliding@)[k] == name);
                                }
                                if views(colliding@).contains(name) && !col0.contains(name) {
                                    let k = choose|k: int|
                                        0 <= k < views(colliding@).len() && views(colliding@)[k]
                                            == name;
                                    assert(k >= col0.len() ==> name == nm);
                                    assert(k < col0.len() ==> col0[k] == name);
                                }
                                if name == nm && twice {
                                    if col0.contains(nm) {
                                    } else {
                                        assert(views(colliding@)[col0.len() as int] == nm);
                                    }
                                }
                                if collides(it, *project, name) && !col0.contains(name) {
                                    if declared_somewhere(it, *project, name, i + 1) {
                                        let k = choose|k: int|
                                            0 <= k < i + 1 && #[trigger] declares_class(it, *project, k, name);
                                        assert(k == i);
                                        assert(name == nm);
                                    }
                                }
                            }
                            assert forall|mo2: Seq<char>, name: Seq<char>| #[trigger] lookup(map@, mo2, name)
                                == if !declared_in(it, *project, mo2, name, i + 1) {
                                None
                            } else if collides(it, *project, name) {
                                Some(mangled(mo2, name))
                            } else {
                                Some(name)
                            } by {
                                assert(lookup(map0, mo2, name) == lookup(map0, mo2, name));
                                if declared_in(it, *project, mo2, name, i as int) {
                                    let k = choose|k: int|
                                        0 <= k < i && #[trigger] declared_at(it, *project, mo2, name, k);
                                    assert(declared_at(it, *project, mo2, name, k));
                                    assert(declared_in(it, *project, mo2, name, i + 1));
                                } else if declared_in(it, *project, mo2, name, i + 1) {
                                    let k = choose|k: int|
                                        0 <= k < i + 1 && #[trigger] declared_at(it, *project, mo2, name, k);
                                    assert(k == i);
                                }
                            }
                        }
                    },
                    None => {
                        proof {
                            lemma_step_undeclared(items@, *project, i as int);
                        }
                    },
                },
                _ => {
                    proof {
                        lemma_step_undeclared(items@, *project, i as int);
                    }
                },
            }
            i += 1;
        }
        let names = EmitNames { map, colliding_simple_names: colliding };
        proof {
            assert forall|name: Seq<char>| #[trigger] is_colliding(names, name) <==> collides(
                items@,
                *project,
                name,
            ) by {
                if collides(items@, *project, name) && !declared_somewhere(
                    items@,
                    *project,
                    name,
                    items@.len() as int,
                ) {
                    lemma_class_count_zero(items@, *project, name, items@.len() as int);
                }
            }
        }
        names
    }

    /// Whether any class name collides.
    pub fn has_any_collision(&self) -> (r: bool)
        ensures
            r == (exists|name: Seq<char>| is_colliding(*self, name)),
    {
        let r = self.colliding_simple_names.len() > 0;
        proof {
            if r {
                assert(views(self.colliding_simple_names@)[0] == self.colliding_simple_names@[0]@);
                assert(is_colliding(*self, self.colliding_simple_names@[0]@));
            }
        }
        r
    }

    /// The name that a reference to the class `simple` is emitted as.
    pub fn resolve(
        &self,
        simple: &str,
        qualifier: &Option<String>,
        current_module: &Option<String>,
    ) -> (r: Option<String>)
        ensures
            opt_view(r) == resolved(*self, simple@, opt_view(*qualifier), opt_view(*current_module)),
    {
        match qualifier {
            Some(q) => find_emit(&self.map, q.as_str(), simple),
            None => match current_module {
                Some(c) => find_emit(&self.map, c.as_str(), simple),
                None => None,
            },
        }
    }
}

/// An item that declares no class of a module changes nothing.
proof fn lemma_step_undeclared(items: Seq<Item>, project: ProjectInfo, i: int)
    requires
        0 <= i < items.len(),
        match items[i] {
            Item::Class(c) => module_of_file(c.span.file, project) is None,
            _ => true,
        },
    ensures
        forall|name: Seq<char>|
            #[trigger] declared_somewhere(items, project, name, i + 1) == declared_somewhere(
                items,
                project,
                name,
                i,
            ),
        forall|mo: Seq<char>, name: Seq<char>|
            #[trigger] declared_in(items, project, mo, name, i + 1) == declared_in(
                items,
                project,
                mo,
                name,
                i,
            ),
{
    assert forall|name: Seq<char>|
        #[trigger] declared_somewhere(items, project, name, i + 1) == declared_somewhere(
            items,
            project,
            name,
            i,
        ) by {
        if declared_somewhere(items, project, name, i + 1) {
            let k = choose|k: int|
                0 <= k < i + 1 && #[trigger] declares_class(items, project, k, name);
            assert(k < i && declares_class(items, project, k, name));
        }
        if declared_somewhere(items, project, name, i) {
            let k = choose|k: int| 0 <= k < i && #[trigger] declares_class(items, project, k, name);
            assert(k < i + 1 && declares_class(items, project, k, name));
        }
    }
    assert forall|mo: Seq<char>, name: Seq<char>|
        #[trigger] declared_in(items, project, mo, name, i + 1) == declared_in(
            items,
            project,
            mo,
            name,
            i,
        ) by {
        if declared_in(items, project, mo, name, i + 1) {
            let k = choose|k: int| 0 <= k < i + 1 && #[trigger] declared_at(items, project, mo, name, k);
            assert(k < i && declared_at(items, project, mo, name, k));
        }
        if declared_in(items, project, mo, name, i) {
            let k = choose|k: int| 0 <= k < i && #[trigger] declared_at(items, project, mo, name, k);
            assert(k < i + 1 && declared_at(items, project, mo, name, k));
        }
    }
}

fn find_emit(map: &Vec<EmitName>, module: &str, name: &str) -> (r: Option<String>)
    ensures
        opt_view(r) == lookup(map@, module@, name@),
{
    let mut i: usize = map.len();
    assert(map@.take(map@.len() as int) =~= map@);
    while i > 0
        invariant
            i <= map@.len(),
            lookup(map@, module@, name@) == lookup(map@.take(i as int), module@, name@),
        decreases i,
    {
        assert(map@.take(i as int).drop_last() =~= map@.take(i - 1));
        let e = &map[i - 1];
        if same(e.module.as_str(), module) && same(e.name.as_str(), name) {
            return Some(e.emit.clone());
        }
        i -= 1;
    }
    None
}

// ---- references ------------------------------------------------------------------

/// The name of the last segment.
pub open spec fn last_name(path: Seq<Ident>) -> Option<Seq<char>> {
    if path.len() == 0 {
        None
    } else {
        Some(path.last().name@)
    }
}

/// The name of the segment before the last.
pub open spec fn qualifier_name(path: Seq<Ident>) -> Option<Seq<char>> {
    if path.len() < 2 {
        None
    } else {
        Some(path[path.len() - 2].name@)
    }
}

/// What a bare identifier is renamed to, where it names a colliding class.
pub open spec fn ident_target(
    names: EmitNames,
    m: Option<Seq<char>>,
    name: Seq<char>,
) -> Option<Seq<char>> {
    if is_colliding(names, name) {
        resolved(names, name, None, m)
    } else {
        None
    }
}

/// What a path is renamed to, where it names a colliding class.
pub open spec fn path_target(
    names: EmitNames,
    m: Option<Seq<char>>,
    path: Seq<Ident>,
) -> Option<Seq<char>> {
    if path.len() > 0 && is_colliding(names, path.last().name@) {
        resolved(names, path.last().name@, qualifier_name(path), m)
    } else {
        None
    }
}

/// What `receiver.name` is renamed to, where it is a module and a colliding
/// class of it.
pub open spec fn member_target(
    names: EmitNames,
    m: Option<Seq<char>>,
    receiver: Expr,
    name: Seq<char>,
) -> Option<Seq<char>> {
    match receiver.kind {
        ExprKind::Ident(rcv) => if is_colliding(names, name) {
            resolved(names, name, Some(rcv@), m)
        } else {
            None
        },
        _ => None,
    }
}

/// `b` is the identifier `name`.
pub open spec fn is_ident(b: ExprKind, name: Seq<char>) -> bool {
    match b {
        ExprKind::Ident(s) => s@ == name,
        _ => false,
    }
}

/// A renamed type path: one segment with the new name where the path names a
/// colliding class, and else the path itself.
pub open spec fn path_renamed(
    names: EmitNames,
    m: Option<Seq<char>>,
    a: Vec<Ident>,
    b: Vec<Ident>,
) -> bool {
    match path_target(names, m, a@) {
        Some(emit) => b@.len() == 1 && b[0].name@ == emit && b[0].span == a@.last().span,
        None => same_idents(a, b),
    }
}

fn name_of_last(path: &Vec<Ident>) -> (r: Option<String>)
    ensures
        opt_view(r) == last_name(path@),
{
    if path.len() == 0 {
        None
    } else {
        Some(path[path.len() - 1].name.clone())
    }
}

fn find_ident_target(names: &EmitNames, m: &Option<String>, name: &str) -> (r: Option<String>)
    ensures
        opt_view(r) == ident_target(*names, opt_view(*m), name@),
{
    if contains_string(&names.colliding_simple_names, name) {
        names.resolve(name, &None, m)
    } else {
        None
    }
}

fn find_path_target(names: &EmitNames, m: &Option<String>, path: &Vec<Ident>) -> (r: Option<String>)
    ensures
        opt_view(r) == path_target(*names, opt_view(*m), path@),
{
    let n: usize = path.len();
    if n == 0 {
        return None;
    }
    let last = path[n - 1].name.as_str();
    if !contains_string(&names.colliding_simple_names, last) {
        return None;
    }
    let qualifier = if n >= 2 {
        Some(path[n - 2].name.clone())
    } else {
        None
    };
    names.resolve(last, &qualifier, m)
}

fn find_member_target(
    names: &EmitNames,
    m: &Option<String>,
    receiver: &Expr,
    name: &str,
) -> (r: Option<String>)
    ensures
        opt_view(r) == member_target(*names, opt_view(*m), *receiver, name@),
{
    match &receiver.kind {
        ExprKind::Ident(rcv) => if contains_string(&names.colliding_simple_names, name) {
            let q = Some(rcv.clone());
            names.resolve(name, &q, m)
        } else {
            None
        },
        _ => None,
    }
}

fn rewrite_path(names: &EmitNames, m: &Option<String>, path: &Vec<Ident>) -> (r: Vec<Ident>)
    ensures
        path_renamed(*names, opt_view(*m), *path, r),
{
    match find_path_target(names, m, path) {
        Some(emit) => {
            let mut out: Vec<Ident> = Vec::new();
            out.push(Ident { name: emit, span: path[path.len() - 1].span });
            out
        },
        None => copy_idents(path),
    }
}

// ---- trees -------------------------------------------------------------------------

pub open spec fn params_renamed(
    names: EmitNames,
    project: ProjectInfo,
    m: Option<Seq<char>>,
    a: Vec<Param>,
    b: Vec<Param>,
) -> bool
    decreases a,
{
    &&& a@.len() == b@.len()
    &&& forall|i: int| 0 <= i < a@.len() ==> param_renamed(names, project, m, #[trigger] a[i], b[i])
}

pub fn rewrite_params(
    names: &EmitNames,
    project: &ProjectInfo,
    m: &Option<String>,
    a: &Vec<Param>,
) -> (r: Vec<Param>)
    ensures
        params_renamed(*names, *project, opt_view(*m), *a, r),
    decreases *a,
{
    let mut out: Vec<Param> = Vec::new();
    let mut i: usize = 0;
    while i < a.len()
        invariant
            i <= a@.len(),
            out@.len() == i,
            forall|j: int| 0 <= j < i ==> param_renamed(*names, *project, opt_view(*m), #[trigger] a[j], out[j]),
        decreases a@.len() - i,
    {
        assert(decreases_to!(*a => a[i as int]));
        let x = rewrite_param(names, project, m, &a[i]);
        out.push(x);
        i += 1;
    }
    out
}

pub open spec fn opt_type_expr_renamed(
    names: EmitNames,
    project: ProjectInfo,
    m: Option<Seq<char>>,
    a: Option<TypeExpr>,
    b: Option<TypeExpr>,
) -> bool
    decreases a,
{
    match a {
        Some(x) => b is Some && type_expr_renamed(names, project, m, x, b->0),
        None => b is None,
    }
}

pub fn rewrite_opt_type_expr(
    names: &EmitNames,
    project: &ProjectInfo,
    m: &Option<String>,
    a: &Option<TypeExpr>,
) -> (r: Option<TypeExpr>)
    ensures
        opt_type_expr_renamed(*names, *project, opt_view(*m), *a, r),
    decreases *a,
{
    match a {
        Some(x) => Some(rewrite_type_expr(names, project, m, x)),
        None => None,
    }
}

pub open spec fn opt_block_renamed(
    names: EmitNames,
    project: ProjectInfo,
    m: Option<Seq<char>>,
    a: Option<Block>,
    b: Option<Block>,
) -> bool
    decreases a,
{
    match a {
        Some(x) => b is Some && block_renamed(names, project, m, x, b->0),
        None => b is None,
    }
}

pub fn rewrite_opt_block(
    names: &EmitNames,
    project: &ProjectInfo,
    m: &Option<String>,
    a: &Option<Block>,
) -> (r: Option<Block>)
    ensures
        opt_block_renamed(*names, *project, opt_view(*m), *a, r),
    decreases *a,
{
    match a {
        Some(x) => Some(rewrite_block(names, project, m, x)),
        None => None,
    }
}

pub open spec fn fn_decl_renamed(
    names: EmitNames,
    project: ProjectInfo,
    m: Option<Seq<char>>,
    a: FnDecl,
    b: FnDecl,
) -> bool
    decreases a,
{
    let inner = if m is Some {
        m
    } else {
        module_of_file(a.span.file, project)
    };
    &&& b.is_async == a.is_async
    &&& same_ident(a.name, b.name)
    &&& same_generic_params(a.generics, b.generics)
    &&& params_renamed(names, project, inner, a.params, b.params)
    &&& opt_type_expr_renamed(names, project, inner, a.return_ty, b.return_ty)
    &&& opt_block_renamed(names, project, inner, a.body, b.body)
    &&& b.is_pub == a.is_pub
    &&& b.is_test == a.is_test
    &&& opt_view(b.display_name) == opt_view(a.display_name)
    &&& same_attributes(a.attributes, b.attributes)
    &&& b.span == a.span
}

pub fn rewrite_fn_decl(
    names: &EmitNames,
    project: &ProjectInfo,
    m: &Option<String>,
    a: &FnDecl,
) -> (r: FnDecl)
    ensures
        fn_decl_renamed(*names, *project, opt_view(*m), *a, r),
    decreases *a,
{
    let inner = match m {
        Some(s) => Some(s.clone()),
        None => module_of(a.span.file, project),
    };
    assert(opt_view(inner) == if opt_view(*m) is Some {
        opt_view(*m)
    } else {
        module_of_file(a.span.file, *project)
    });
    FnDecl {
        is_async: a.is_async,
        name: copy_ident(&a.name),
        generics: copy_generic_params(&a.generics),
        params: rewrite_params(names, project, &inner, &a.params),
        return_ty: rewrite_opt_type_expr(names, project, &inner, &a.return_ty),
        body: rewrite_opt_block(names, project, &inner, &a.body),
        is_pub: a.is_pub,
        is_test: a.is_test,
        display_name: copy_opt_string(&a.display_name),
        attributes: copy_attributes(&a.attributes),
        span: a.span,
    }
}

pub open spec fn class_members_renamed(
    names: EmitNames,
    project: ProjectInfo,
    m: Option<Seq<char>>,
    a: Vec<ClassMember>,
    b: Vec<ClassMember>,
) -> bool
    decreases a,
{
    &&& a@.len() == b@.len()
    &&& forall|i: int| 0 <= i < a@.len() ==> class_member_renamed(names, project, m, #[trigger] a[i], b[i])
}

pub fn rewrite_class_members(
    names: &EmitNames,
    project: &ProjectInfo,
    m: &Option<String>,
    a: &Vec<ClassMember>,
) -> (r: Vec<ClassMember>)
    ensures
        class_members_renamed(*names, *project, opt_view(*m), *a, r),
    decreases *a,
{
    let mut out: Vec<ClassMember> = Vec::new();
    let mut i: usize = 0;
    while i < a.len()
        invariant
            i <= a@.len(),
            out@.len() == i,
            forall|j: int| 0 <= j < i ==> class_member_renamed(*names, *project, opt_view(*m), #[trigger] a[j], out[j]),
        decreases a@.len() - i,
    {
        assert(decreases_to!(*a => a[i as int]));
        let x = rewrite_class_member(names, project, m, &a[i]);
        out.push(x);
        i += 1;
    }
    out
}

pub open spec fn fields_renamed(
    names: EmitNames,
    project: ProjectInfo,
    m: Option<Seq<char>>,
    a: Vec<Field>,
    b: Vec<Field>,
) -> bool
    decreases a,
{
    &&& a@.len() == b@.len()
    &&& forall|i: int| 0 <= i < a@.len() ==> field_renamed(names, project, m, #[trigger] a[i], b[i])
}

pub fn rewrite_fields(
    names: &EmitNames,
    project: &ProjectInfo,
    m: &Option<String>,
    a: &Vec<Field>,
) -> (r: Vec<Field>)
    ensures
        fields_renamed(*names, *project, opt_view(*m), *a, r),
    decreases *a,
{
    let mut out: Vec<Field> = Vec::new();
    let mut i: usize = 0;
    while i < a.len()
        invariant
            i <= a@.len(),
            out@.len() == i,
            forall|j: int| 0 <= j < i ==> field_renamed(*names, *project, opt_view(*m), #[trigger] a[j], out[j]),
        decreases a@.len() - i,
    {
        assert(decreases_to!(*a => a[i as int]));
        let x = rewrite_field(names, project, m, &a[i]);
        out.push(x);
        i += 1;
    }
    out
}

pub open spec fn fn_decls_renamed(
    names: EmitNames,
    project: ProjectInfo,
    m: Option<Seq<char>>,
    a: Vec<FnDecl>,
    b: Vec<FnDecl>,
) -> bool
    decreases a,
{
    &&& a@.len() == b@.len()
    &&& forall|i: int| 0 <= i < a@.len() ==> fn_decl_renamed(names, project, m, #[trigger] a[i], b[i])
}

pub fn rewrite_fn_decls(
    names: &EmitNames,
    project: &ProjectInfo,
    m: &Option<String>,
    a: &Vec<FnDecl>,
) -> (r: Vec<FnDecl>)
    ensures
        fn_decls_renamed(*names, *project, opt_view(*m), *a, r),
    decreases *a,
{
    let mut out: Vec<FnDecl> = Vec::new();
    let mut i: usize = 0;
    while i < a.len()
        invariant
            i <= a@.len(),
            out@.len() == i,
            forall|j: int| 0 <= j < i ==> fn_decl_renamed(*names, *project, opt_view(*m), #[trigger] a[j], out[j]),
        decreases a@.len() - i,
    {
        assert(decreases_to!(*a => a[i as int]));
        let x = rewrite_fn_decl(names, project, m, &a[i]);
        out.push(x);
        i += 1;
    }
    out
}

pub open spec fn enum_variants_renamed(
    names: EmitNames,
    project: ProjectInfo,
    m: Option<Seq<char>>,
    a: Vec<EnumVariant>,
    b: Vec<EnumVariant>,
) -> bool
    decreases a,
{
    &&& a@.len() == b@.len()
    &&& forall|i: int| 0 <= i < a@.len() ==> enum_variant_renamed(names, project, m, #[trigger] a[i], b[i])
}

pub fn rewrite_enum_variants(
    names: &EmitNames,
    project: &ProjectInfo,
    m: &Option<String>,
    a: &Vec<EnumVariant>,
) -> (r: Vec<EnumVariant>)
    ensures
        enum_variants_renamed(*names, *project, opt_view(*m), *a, r),
    decreases *a,
{
    let mut out: Vec<EnumVariant> = Vec::new();
    let mut i: usize = 0;
    while i < a.len()
        invariant
            i <= a@.len(),
            out@.len() == i,
            forall|j: int| 0 <= j < i ==> enum_variant_renamed(*names, *project, opt_view(*m), #[trigger] a[j], out[j]),
        decreases a@.len() - i,
    {
        assert(decreases_to!(*a => a[i as int]));
        let x = rewrite_enum_variant(names, project, m, &a[i]);
        out.push(x);
        i += 1;
    }
    out
}

pub open spec fn state_fields_renamed(
    names: EmitNames,
    project: ProjectInfo,
    m: Option<Seq<char>>,
    a: Vec<StateField>,
    b: Vec<StateField>,
) -> bool
    decreases a,
{
    &&& a@.len() == b@.len()
    &&& forall|i: int| 0 <= i < a@.len() ==> state_field_renamed(names, project, m, #[trigger] a[i], b[i])
}

pub fn rewrite_state_fields(
    names: &EmitNames,
    project: &ProjectInfo,
    m: &Option<String>,
    a: &Vec<StateField>,
) -> (r: Vec<StateField>)
    ensures
        state_fields_renamed(*names, *project, opt_view(*m), *a, r),
    decreases *a,
{
    let mut out: Vec<StateField> = Vec::new();
    let mut i: usize = 0;
    while i < a.len()
        invariant
            i <= a@.len(),
            out@.len() == i,
            forall|j: int| 0 <= j < i ==> state_field_renamed(*names, *project, opt_view(*m), #[trigger] a[j], out[j]),
        decreases a@.len() - i,
    {
        assert(decreases_to!(*a => a[i as int]));
        let x = rewrite_state_field(names, project, m, &a[i]);
        out.push(x);
        i += 1;
    }
    out
}

pub open spec fn element_renamed(
    names: EmitNames,
    project: ProjectInfo,
    m: Option<Seq<char>>,
    a: Element,
    b: Element,
) -> bool
    decreases a,
{
    &&& match resolved(names, a.name.name@, last_name(a.path@), m) {
        Some(emit) => b.name.name@ == emit && b.path@.len() == 0,
        None => b.name.name@ == a.name.name@ && same_idents(a.path, b.path),
    }
    &&& b.name.span == a.name.span
    &&& element_members_renamed(names, project, m, a.members, b.members)
    &&& b.span == a.span
}

pub fn rewrite_element(
    names: &EmitNames,
    project: &ProjectInfo,
    m: &Option<String>,
    a: &Element,
) -> (r: Element)
    ensures
        element_renamed(*names, *project, opt_view(*m), *a, r),
    decreases *a,
{
    let qualifier = name_of_last(&a.path);
    let members = rewrite_element_members(names, project, m, &a.members);
    match names.resolve(a.name.name.as_str(), &qualifier, m) {
        Some(emit) => Element {
            path: Vec::new(),
            name: Ident { name: emit, span: a.name.span },
            members,
            span: a.span,
        },
        None => Element {
            path: copy_idents(&a.path),
            name: copy_ident(&a.name),
            members,
            span: a.span,
        },
    }
}

pub open spec fn element_members_renamed(
    names: EmitNames,
    project: ProjectInfo,
    m: Option<Seq<char>>,
    a: Vec<ElementMember>,
    b: Vec<ElementMember>,
) -> bool
    decreases a,
{
    &&& a@.len() == b@.len()
    &&& forall|i: int| 0 <= i < a@.len() ==> element_member_renamed(names, project, m, #[trigger] a[i], b[i])
}

pub fn rewrite_element_members(
    names: &EmitNames,
    project: &ProjectInfo,
    m: &Option<String>,
    a: &Vec<ElementMember>,
) -> (r: Vec<ElementMember>)
    ensures
        element_members_renamed(*names, *project, opt_view(*m), *a, r),
    decreases *a,
{
    let mut out: Vec<ElementMember> = Vec::new();
    let mut i: usize = 0;
    while i < a.len()
        invariant
            i <= a@.len(),
            out@.len() == i,
            forall|j: int| 0 <= j < i ==> element_member_renamed(*names, *project, opt_view(*m), #[trigger] a[j], out[j]),
        decreases a@.len() - i,
    {
        assert(decreases_to!(*a => a[i as int]));
        let x = rewrite_element_member(names, project, m, &a[i]);
        out.push(x);
        i += 1;
    }
    out
}

pub open spec fn style_body_renamed(
    names: EmitNames,
    project: ProjectInfo,
    m: Option<Seq<char>>,
    a: StyleBody,
    b: StyleBody,
) -> bool
    decreases a,
{
    match a {
        StyleBody::Lit(x) => match b {
            StyleBody::Lit(y) => style_entries_renamed(names, project, m, x, y),
            _ => false,
        },
        StyleBody::Alias(x) => match b {
            StyleBody::Alias(y) => expr_renamed(names, project, m, x, y),
            _ => false,
        },
    }
}

pub fn rewrite_style_body(
    names: &EmitNames,
    project: &ProjectInfo,
    m: &Option<String>,
    a: &StyleBody,
) -> (r: StyleBody)
    ensures
        style_body_renamed(*names, *project, opt_view(*m), *a, r),
    decreases *a,
{
    match a {
        StyleBody::Lit(x) => StyleBody::Lit(rewrite_style_entries(names, project, m, x)),
        StyleBody::Alias(x) => StyleBody::Alias(rewrite_expr(names, project, m, x)),
    }
}

pub open spec fn param_renamed(
    names: EmitNames,
    project: ProjectInfo,
    m: Option<Seq<char>>,
    a: Param,
    b: Param,
) -> bool
    decreases a,
{
    &&& same_ident(a.name, b.name)
    &&& type_expr_renamed(names, project, m, a.ty, b.ty)
    &&& opt_expr_renamed(names, project, m, a.default, b.default)
    &&& b.is_escaping == a.is_escaping
    &&& b.is_consuming == a.is_consuming
    &&& b.span == a.span
}

pub fn rewrite_param(
    names: &EmitNames,
    project: &ProjectInfo,
    m: &Option<String>,
    a: &Param,
) -> (r: Param)
    ensures
        param_renamed(*names, *project, opt_view(*m), *a, r),
    decreases *a,
{
    Param {
        name: copy_ident(&a.name),
        ty: rewrite_type_expr(names, project, m, &a.ty),
        default: rewrite_opt_expr(names, project, m, &a.default),
        is_escaping: a.is_escaping,
        is_consuming: a.is_consuming,
        span: a.span,
    }
}

pub open spec fn type_expr_renamed(
    names: EmitNames,
    project: ProjectInfo,
    m: Option<Seq<char>>,
    a: TypeExpr,
    b: TypeExpr,
) -> bool
    decreases a,
{
    &&& type_kind_renamed(names, project, m, a.kind, b.kind)
    &&& b.span == a.span
}

pub fn rewrite_type_expr(
    names: &EmitNames,
    project: &ProjectInfo,
    m: &Option<String>,
    a: &TypeExpr,
) -> (r: TypeExpr)
    ensures
        type_expr_renamed(*names, *project, opt_view(*m), *a, r),
    decreases *a,
{
    TypeExpr {
        kind: rewrite_type_kind(names, project, m, &a.kind),
        span: a.span,
    }
}

pub open spec fn block_renamed(
    names: EmitNames,
    project: ProjectInfo,
    m: Option<Seq<char>>,
    a: Block,
    b: Block,
) -> bool
    decreases a,
{
    &&& stmts_renamed(names, project, m, a.stmts, b.stmts)
    &&& opt_boxed_expr_renamed(names, project, m, a.trailing, b.trailing)
    &&& b.span == a.span
}

pub fn rewrite_block(
    names: &EmitNames,
    project: &ProjectInfo,
    m: &Option<String>,
    a: &Block,
) -> (r: Block)
    ensures
        block_renamed(*names, *project, opt_view(*m), *a, r),
    decreases *a,
{
    Block {
        stmts: rewrite_stmts(names, project, m, &a.stmts),
        trailing: rewrite_opt_boxed_expr(names, project, m, &a.trailing),
        span: a.span,
    }
}

pub open spec fn class_member_renamed(
    names: EmitNames,
    project: ProjectInfo,
    m: Option<Seq<char>>,
    a: ClassMember,
    b: ClassMember,
) -> bool
    decreases a,
{
    match a {
        ClassMember::Property(x) => match b {
            ClassMember::Property(y) => property_decl_renamed(names, project, m, x, y),
            _ => false,
        },
        ClassMember::Signal(x) => match b {
            ClassMember::Signal(y) => signal_decl_renamed(names, project, m, x, y),
            _ => false,
        },
        ClassMember::Fn(x) => match b {
            ClassMember::Fn(y) => fn_decl_renamed(names, project, m, x, y),
            _ => false,
        },
        ClassMember::Slot(x) => match b {
            ClassMember::Slot(y) => fn_decl_renamed(names, project, m, x, y),
            _ => false,
        },
        ClassMember::Field(x) => match b {
            ClassMember::Field(y) => field_renamed(names, project, m, x, y),
            _ => false,
        },
        ClassMember::Init(x) => match b {
            ClassMember::Init(y) => init_decl_renamed(names, project, m, x, y),
            _ => false,
        },
        ClassMember::Deinit(x) => match b {
            ClassMember::Deinit(y) => deinit_decl_renamed(names, project, m, x, y),
            _ => false,
        },
    }
}

pub fn rewrite_class_member(
    names: &EmitNames,
    project: &ProjectInfo,
    m: &Option<String>,
    a: &ClassMember,
) -> (r: ClassMember)
    ensures
        class_member_renamed(*names, *project, opt_view(*m), *a, r),
    decreases *a,
{
    match a {
        ClassMember::Property(x) => ClassMember::Property(rewrite_property_decl(names, project, m, x)),
        ClassMember::Signal(x) => ClassMember::Signal(rewrite_signal_decl(names, project, m, x)),
        ClassMember::Fn(x) => ClassMember::Fn(rewrite_fn_decl(names, project, m, x)),
        ClassMember::Slot(x) => ClassMember::Slot(rewrite_fn_decl(names, project, m, x)),
        ClassMember::Field(x) => ClassMember::Field(rewrite_field(names, project, m, x)),
        ClassMember::Init(x) => ClassMember::Init(rewrite_init_decl(names, project, m, x)),
        ClassMember::Deinit(x) => ClassMember::Deinit(rewrite_deinit_decl(names, project, m, x)),
    }
}

pub open spec fn field_renamed(
    names: EmitNames,
    project: ProjectInfo,
    m: Option<Seq<char>>,
    a: Field,
    b: Field,
) -> bool
    decreases a,
{
    &&& same_ident(a.name, b.name)
    &&& type_expr_renamed(names, project, m, a.ty, b.ty)
    &&& opt_expr_renamed(names, project, m, a.default, b.default)
    &&& b.is_pub == a.is_pub
    &&& b.is_mut == a.is_mut
    &&& b.weak == a.weak
    &&& b.unowned == a.unowned
    &&& b.span == a.span
    &&& b.block_id == a.block_id
}

pub fn rewrite_field(
    names: &EmitNames,
    project: &ProjectInfo,
    m: &Option<String>,
    a: &Field,
) -> (r: Field)
    ensures
        field_renamed(*names, *project, opt_view(*m), *a, r),
    decreases *a,
{
    Field {
        name: copy_ident(&a.name),
        ty: rewrite_type_expr(names, project, m, &a.ty),
        default: rewrite_opt_expr(names, project, m, &a.default),
        is_pub: a.is_pub,
        is_mut: a.is_mut,
        weak: a.weak,
        unowned: a.unowned,
        span: a.span,
        block_id: a.block_id,
    }
}

pub open spec fn enum_variant_renamed(
    names: EmitNames,
    project: ProjectInfo,
    m: Option<Seq<char>>,
    a: EnumVariant,
    b: EnumVariant,
) -> bool
    decreases a,
{
    &&& same_ident(a.name, b.name)
    &&& opt_expr_renamed(names, project, m, a.value, b.value)
    &&& fields_renamed(names, project, m, a.fields, b.fields)
    &&& b.is_pub == a.is_pub
    &&& b.span == a.span
}

pub fn rewrite_enum_variant(
    names: &EmitNames,
    project: &ProjectInfo,
    m: &Option<String>,
    a: &EnumVariant,
) -> (r: EnumVariant)
    ensures
        enum_variant_renamed(*names, *project, opt_view(*m), *a, r),
    decreases *a,
{
    EnumVariant {
        name: copy_ident(&a.name),
        value: rewrite_opt_expr(names, project, m, &a.value),
        fields: rewrite_fields(names, project, m, &a.fields),
        is_pub: a.is_pub,
        span: a.span,
    }
}

pub open spec fn state_field_renamed(
    names: EmitNames,
    project: ProjectInfo,
    m: Option<Seq<char>>,
    a: StateField,
    b: StateField,
) -> bool
    decreases a,
{
    &&& same_ident(a.name, b.name)
    &&& state_field_kind_renamed(names, project, m, a.kind, b.kind)
    &&& expr_renamed(names, project, m, a.init_expr, b.init_expr)
    &&& b.span == a.span
}

pub fn rewrite_state_field(
    names: &EmitNames,
    project: &ProjectInfo,
    m: &Option<String>,
    a: &StateField,
) -> (r: StateField)
    ensures
        state_field_renamed(*names, *project, opt_view(*m), *a, r),
    decreases *a,
{
    StateField {
        name: copy_ident(&a.name),
        kind: rewrite_state_field_kind(names, project, m, &a.kind),
        init_expr: rewrite_expr(names, project, m, &a.init_expr),
        span: a.span,
    }
}

pub open spec fn element_member_renamed(
    names: EmitNames,
    project: ProjectInfo,
    m: Option<Seq<char>>,
    a: ElementMember,
    b: ElementMember,
) -> bool
    decreases a,
{
    match a {
        ElementMember::Property { key, value, span } => match b {
            ElementMember::Property { key: key2, value: value2, span: span2 } => {
                &&& key2@ == key@
                &&& expr_renamed(names, project, m, value, value2)
                &&& span2 == span
            },
            _ => false,
        },
        ElementMember::Child(x) => match b {
            ElementMember::Child(y) => element_renamed(names, project, m, x, y),
            _ => false,
        },
        ElementMember::Stmt(x) => match b {
            ElementMember::Stmt(y) => stmt_renamed(names, project, m, x, y),
            _ => false,
        },
    }
}

pub fn rewrite_element_member(
    names: &EmitNames,
    project: &ProjectInfo,
    m: &Option<String>,
    a: &ElementMember,
) -> (r: ElementMember)
    ensures
        element_member_renamed(*names, *project, opt_view(*m), *a, r),
    decreases *a,
{
    match a {
        ElementMember::Property { key, value, span } => ElementMember::Property {
            key: key.clone(),
            value: rewrite_expr(names, project, m, value),
            span: *span,
        },
        ElementMember::Child(x) => ElementMember::Child(rewrite_element(names, project, m, x)),
        ElementMember::Stmt(x) => ElementMember::Stmt(rewrite_stmt(names, project, m, x)),
    }
}

pub open spec fn style_entries_renamed(
    names: EmitNames,
    project: ProjectInfo,
    m: Option<Seq<char>>,
    a: Vec<StyleEntry>,
    b: Vec<StyleEntry>,
) -> bool
    decreases a,
{
    &&& a@.len() == b@.len()
    &&& forall|i: int| 0 <= i < a@.len() ==> style_entry_renamed(names, project, m, #[trigger] a[i], b[i])
}

pub fn rewrite_style_entries(
    names: &EmitNames,
    project: &ProjectInfo,
    m: &Option<String>,
    a: &Vec<StyleEntry>,
) -> (r: Vec<StyleEntry>)
    ensures
        style_entries_renamed(*names, *project, opt_view(*m), *a, r),
    decreases *a,
{
    let mut out: Vec<StyleEntry> = Vec::new();
    let mut i: usize = 0;
    while i < a.len()
        invariant
            i <= a@.len(),
            out@.len() == i,
            forall|j: int| 0 <= j < i ==> style_entry_renamed(*names, *project, opt_view(*m), #[trigger] a[j], out[j]),
        decreases a@.len() - i,
    {
        assert(decreases_to!(*a => a[i as int]));
        let x = rewrite_style_entry(names, project, m, &a[i]);
        out.push(x);
        i += 1;
    }
    out
}

pub open spec fn expr_renamed(
    names: EmitNames,
    project: ProjectInfo,
    m: Option<Seq<char>>,
    a: Expr,
    b: Expr,
) -> bool
    decreases a,
{
    &&& expr_kind_renamed(names, project, m, a.kind, b.kind)
    &&& b.span == a.span
}

pub fn rewrite_expr(
    names: &EmitNames,
    project: &ProjectInfo,
    m: &Option<String>,
    a: &Expr,
) -> (r: Expr)
    ensures
        expr_renamed(*names, *project, opt_view(*m), *a, r),
    decreases *a,
{
    Expr {
        kind: rewrite_expr_kind(names, project, m, &a.kind),
        span: a.span,
    }
}

pub open spec fn opt_expr_renamed(
    names: EmitNames,
    project: ProjectInfo,
    m: Option<Seq<char>>,
    a: Option<Expr>,
    b: Option<Expr>,
) -> bool
    decreases a,
{
    match a {
        Some(x) => b is Some && expr_renamed(names, project, m, x, b->0),
        None => b is None,
    }
}

pub fn rewrite_opt_expr(
    names: &EmitNames,
    project: &ProjectInfo,
    m: &Option<String>,
    a: &Option<Expr>,
) -> (r: Option<Expr>)
    ensures
        opt_expr_renamed(*names, *project, opt_view(*m), *a, r),
    decreases *a,
{
    match a {
        Some(x) => Some(rewrite_expr(names, project, m, x)),
        None => None,
    }
}

pub open spec fn type_kind_renamed(
    names: EmitNames,
    project: ProjectInfo,
    m: Option<Seq<char>>,
    a: TypeKind,
    b: TypeKind,
) -> bool
    decreases a,
{
    match a {
        TypeKind::Named { path, args } => match b {
            TypeKind::Named { path: path2, args: args2 } => {
                &&& path_renamed(names, m, path, path2)
                &&& type_exprs_renamed(names, project, m, args, args2)
            },
            _ => false,
        },
        TypeKind::Nullable(x) => match b {
            TypeKind::Nullable(y) => type_expr_renamed(names, project, m, *x, *y),
            _ => false,
        },
        TypeKind::ErrorUnion(x) => match b {
            TypeKind::ErrorUnion(y) => type_expr_renamed(names, project, m, *x, *y),
            _ => false,
        },
        TypeKind::Fn { params, ret } => match b {
            TypeKind::Fn { params: params2, ret: ret2 } => {
                &&& type_exprs_renamed(names, project, m, params, params2)
                &&& type_expr_renamed(names, project, m, *ret, *ret2)
            },
            _ => false,
        },
        TypeKind::SelfType => b is SelfType,
    }
}

pub fn rewrite_type_kind(
    names: &EmitNames,
    project: &ProjectInfo,
    m: &Option<String>,
    a: &TypeKind,
) -> (r: TypeKind)
    ensures
        type_kind_renamed(*names, *project, opt_view(*m), *a, r),
    decreases *a,
{
    match a {
        TypeKind::Named { path, args } => TypeKind::Named {
            path: rewrite_path(names, m, path),
            args: rewrite_type_exprs(names, project, m, args),
        },
        TypeKind::Nullable(x) => TypeKind::Nullable(Box::new(rewrite_type_expr(names, project, m, x))),
        TypeKind::ErrorUnion(x) => TypeKind::ErrorUnion(Box::new(rewrite_type_expr(names, project, m, x))),
        TypeKind::Fn { params, ret } => TypeKind::Fn {
            params: rewrite_type_exprs(names, project, m, params),
            ret: Box::new(rewrite_type_expr(names, project, m, ret)),
        },
        TypeKind::SelfType => TypeKind::SelfType,
    }
}

pub open spec fn stmts_renamed(
    names: EmitNames,
    project: ProjectInfo,
    m: Option<Seq<char>>,
    a: Vec<Stmt>,
    b: Vec<Stmt>,
) -> bool
    decreases a,
{
    &&& a@.len() == b@.len()
    &&& forall|i: int| 0 <= i < a@.len() ==> stmt_renamed(names, project, m, #[trigger] a[i], b[i])
}

pub fn rewrite_stmts(
    names: &EmitNames,
    project: &ProjectInfo,
    m: &Option<String>,
    a: &Vec<Stmt>,
) -> (r: Vec<Stmt>)
    ensures
        stmts_renamed(*names, *project, opt_view(*m), *a, r),
    decreases *a,
{
    let mut out: Vec<Stmt> = Vec::new();
    let mut i: usize = 0;
    while i < a.len()
        invariant
            i <= a@.len(),
            out@.len() == i,
            forall|j: int| 0 <= j < i ==> stmt_renamed(*names, *project, opt_view(*m), #[trigger] a[j], out[j]),
        decreases a@.len() - i,
    {
        assert(decreases_to!(*a => a[i as int]));
        let x = rewrite_stmt(names, project, m, &a[i]);
        out.push(x);
        i += 1;
    }
    out
}

pub open spec fn opt_boxed_expr_renamed(
    names: EmitNames,
    project: ProjectInfo,
    m: Option<Seq<char>>,
    a: Option<Box<Expr>>,
    b: Option<Box<Expr>>,
) -> bool
    decreases a,
{
    match a {
        Some(x) => b is Some && expr_renamed(names, project, m, *x, *b->0),
        None => b is None,
    }
}

pub fn rewrite_opt_boxed_expr(
    names: &EmitNames,
    project: &ProjectInfo,
    m: &Option<String>,
    a: &Option<Box<Expr>>,
) -> (r: Option<Box<Expr>>)
    ensures
        opt_boxed_expr_renamed(*names, *project, opt_view(*m), *a, r),
    decreases *a,
{
    match a {
        Some(x) => Some(Box::new(rewrite_expr(names, project, m, x))),
        None => None,
    }
}

pub open spec fn property_decl_renamed(
    names: EmitNames,
    project: ProjectInfo,
    m: Option<Seq<char>>,
    a: PropertyDecl,
    b: PropertyDecl,
) -> bool
    decreases a,
{
    &&& same_ident(a.name, b.name)
    &&& type_expr_renamed(names, project, m, a.ty, b.ty)
    &&& same_opt_ident(a.notify, b.notify)
    &&& opt_expr_renamed(names, project, m, a.default, b.default)
    &&& b.is_pub == a.is_pub
    &&& b.bindable == a.bindable
    &&& opt_expr_renamed(names, project, m, a.binding, b.binding)
    &&& opt_expr_renamed(names, project, m, a.fresh, b.fresh)
    &&& b.model == a.model
    &&& b.constant == a.constant
    &&& b.span == a.span
    &&& b.block_id == a.block_id
}

pub fn rewrite_property_decl(
    names: &EmitNames,
    project: &ProjectInfo,
    m: &Option<String>,
    a: &PropertyDecl,
) -> (r: PropertyDecl)
    ensures
        property_decl_renamed(*names, *project, opt_view(*m), *a, r),
    decreases *a,
{
    PropertyDecl {
        name: copy_ident(&a.name),
        ty: rewrite_type_expr(names, project, m, &a.ty),
        notify: copy_opt_ident(&a.notify),
        default: rewrite_opt_expr(names, project, m, &a.default),
        is_pub: a.is_pub,
        bindable: a.bindable,
        binding: rewrite_opt_expr(names, project, m, &a.binding),
        fresh: rewrite_opt_expr(names, project, m, &a.fresh),
        model: a.model,
        constant: a.constant,
        span: a.span,
        block_id: a.block_id,
    }
}

pub open spec fn signal_decl_renamed(
    names: EmitNames,
    project: ProjectInfo,
    m: Option<Seq<char>>,
    a: SignalDecl,
    b: SignalDecl,
) -> bool
    decreases a,
{
    &&& same_ident(a.name, b.name)
    &&& params_renamed(names, project, m, a.params, b.params)
    &&& b.is_pub == a.is_pub
    &&& b.span == a.span
}

pub fn rewrite_signal_decl(
    names: &EmitNames,
    project: &ProjectInfo,
    m: &Option<String>,
    a: &SignalDecl,
) -> (r: SignalDecl)
    ensures
        signal_decl_renamed(*names, *project, opt_view(*m), *a, r),
    decreases *a,
{
    SignalDecl {
        name: copy_ident(&a.name),
        params: rewrite_params(names, project, m, &a.params),
        is_pub: a.is_pub,
        span: a.span,
    }
}

pub open spec fn init_decl_renamed(
    names: EmitNames,
    project: ProjectInfo,
    m: Option<Seq<char>>,
    a: InitDecl,
    b: InitDecl,
) -> bool
    decreases a,
{
    &&& params_renamed(names, project, m, a.params, b.params)
    &&& block_renamed(names, project, m, a.body, b.body)
    &&& b.span == a.span
}

pub fn rewrite_init_decl(
    names: &EmitNames,
    project: &ProjectInfo,
    m: &Option<String>,
    a: &InitDecl,
) -> (r: InitDecl)
    ensures
        init_decl_renamed(*names, *project, opt_view(*m), *a, r),
    decreases *a,
{
    InitDecl {
        params: rewrite_params(names, project, m, &a.params),
        body: rewrite_block(names, project, m, &a.body),
        span: a.span,
    }
}

pub open spec fn deinit_decl_renamed(
    names: EmitNames,
    project: ProjectInfo,
    m: Option<Seq<char>>,
    a: DeinitDecl,
    b: DeinitDecl,
) -> bool
    decreases a,
{
    &&& block_renamed(names, project, m, a.body, b.body)
    &&& b.span == a.span
}

pub fn rewrite_deinit_decl(
    names: &EmitNames,
    project: &ProjectInfo,
    m: &Option<String>,
    a: &DeinitDecl,
) -> (r: DeinitDecl)
    ensures
        deinit_decl_renamed(*names, *project, opt_view(*m), *a, r),
    decreases *a,
{
    DeinitDecl {
        body: rewrite_block(names, project, m, &a.body),
        span: a.span,
    }
}

pub open spec fn state_field_kind_renamed(
    names: EmitNames,
    project: ProjectInfo,
    m: Option<Seq<char>>,
    a: StateFieldKind,
    b: StateFieldKind,
) -> bool
    decreases a,
{
    match a {
        StateFieldKind::Property { ty } => match b {
            StateFieldKind::Property { ty: ty2 } => {
                &&& type_expr_renamed(names, project, m, ty, ty2)
            },
            _ => false,
        },
        StateFieldKind::Object => b is Object,
    }
}

pub fn rewrite_state_field_kind(
    names: &EmitNames,
    project: &ProjectInfo,
    m: &Option<String>,
    a: &StateFieldKind,
) -> (r: StateFieldKind)
    ensures
        state_field_kind_renamed(*names, *project, opt_view(*m), *a, r),
    decreases *a,
{
    match a {
        StateFieldKind::Property { ty } => StateFieldKind::Property {
            ty: rewrite_type_expr(names, project, m, ty),
        },
        StateFieldKind::Object => StateFieldKind::Object,
    }
}

pub open spec fn stmt_renamed(
    names: EmitNames,
    project: ProjectInfo,
    m: Option<Seq<char>>,
    a: Stmt,
    b: Stmt,
) -> bool
    decreases a,
{
    match a {
        Stmt::Let { name, ty, value, span, block_id } => match b {
            Stmt::Let { name: name2, ty: ty2, value: value2, span: span2, block_id: block_id2 } => {
                &&& same_ident(name, name2)
                &&& opt_type_expr_renamed(names, project, m, ty, ty2)
                &&& expr_renamed(names, project, m, value, value2)
                &&& span2 == span
                &&& block_id2 == block_id
            },
            _ => false,
        },
        Stmt::Var { name, ty, value, span, block_id } => match b {
            Stmt::Var { name: name2, ty: ty2, value: value2, span: span2, block_id: block_id2 } => {
                &&& same_ident(name, name2)
                &&& opt_type_expr_renamed(names, project, m, ty, ty2)
                &&& expr_renamed(names, project, m, value, value2)
                &&& span2 == span
                &&& block_id2 == block_id
            },
            _ => false,
        },
        Stmt::Expr(x) => match b {
            Stmt::Expr(y) => expr_renamed(names, project, m, x, y),
            _ => false,
        },
        Stmt::Return { value, span } => match b {
            Stmt::Return { value: value2, span: span2 } => {
                &&& opt_expr_renamed(names, project, m, value, value2)
                &&& span2 == span
            },
            _ => false,
        },
        Stmt::Emit { signal, args, span } => match b {
            Stmt::Emit { signal: signal2, args: args2, span: span2 } => {
                &&& same_ident(signal, signal2)
                &&& exprs_renamed(names, project, m, args, args2)
                &&& span2 == span
            },
            _ => false,
        },
        Stmt::Assign { target, op, value, span } => match b {
            Stmt::Assign { target: target2, op: op2, value: value2, span: span2 } => {
                &&& expr_renamed(names, project, m, target, target2)
                &&& op2 == op
                &&& expr_renamed(names, project, m, value, value2)
                &&& span2 == span
            },
            _ => false,
        },
        Stmt::For { binding, iter, body, span } => match b {
            Stmt::For { binding: binding2, iter: iter2, body: body2, span: span2 } => {
                &&& same_ident(binding, binding2)
                &&& expr_renamed(names, project, m, iter, iter2)
                &&& block_renamed(names, project, m, body, body2)
                &&& span2 == span
            },
            _ => false,
        },
        Stmt::While { cond, body, span } => match b {
            Stmt::While { cond: cond2, body: body2, span: span2 } => {
                &&& expr_renamed(names, project, m, cond, cond2)
                &&& block_renamed(names, project, m, body, body2)
                &&& span2 == span
            },
            _ => false,
        },
        Stmt::Break { .. } => b == a,
        Stmt::Continue { .. } => b == a,
        Stmt::Batch { body, span } => match b {
            Stmt::Batch { body: body2, span: span2 } => {
                &&& block_renamed(names, project, m, body, body2)
                &&& span2 == span
            },
            _ => false,
        },
    }
}

pub fn rewrite_stmt(
    names: &EmitNames,
    project: &ProjectInfo,
    m: &Option<String>,
    a: &Stmt,
) -> (r: Stmt)
    ensures
        stmt_renamed(*names, *project, opt_view(*m), *a, r),
    decreases *a,
{
    match a {
        Stmt::Let { name, ty, value, span, block_id } => Stmt::Let {
            name: copy_ident(name),
            ty: rewrite_opt_type_expr(names, project, m, ty),
            value: rewrite_expr(names, project, m, value),
            span: *span,
            block_id: *block_id,
        },
        Stmt::Var { name, ty, value, span, block_id } => Stmt::Var {
            name: copy_ident(name),
            ty: rewrite_opt_type_expr(names, project, m, ty),
            value: rewrite_expr(names, project, m, value),
            span: *span,
            block_id: *block_id,
        },
        Stmt::Expr(x) => Stmt::Expr(rewrite_expr(names, project, m, x)),
        Stmt::Return { value, span } => Stmt::Return {
            value: rewrite_opt_expr(names, project, m, value),
            span: *span,
        },
        Stmt::Emit { signal, args, span } => Stmt::Emit {
            signal: copy_ident(signal),
            args: rewrite_exprs(names, project, m, args),
            span: *span,
        },
        Stmt::Assign { target, op, value, span } => Stmt::Assign {
            target: rewrite_expr(names, project, m, target),
            op: *op,
            value: rewrite_expr(names, project, m, value),
            span: *span,
        },
        Stmt::For { binding, iter, body, span } => Stmt::For {
            binding: copy_ident(binding),
            iter: rewrite_expr(names, project, m, iter),
            body: rewrite_block(names, project, m, body),
            span: *span,
        },
        Stmt::While { cond, body, span } => Stmt::While {
            cond: rewrite_expr(names, project, m, cond),
            body: rewrite_block(names, project, m, body),
            span: *span,
        },
        Stmt::Break { span } => Stmt::Break {
            span: *span,
        },
        Stmt::Continue { span } => Stmt::Continue {
            span: *span,
        },
        Stmt::Batch { body, span } => Stmt::Batch {
            body: rewrite_block(names, project, m, body),
            span: *span,
        },
    }
}

pub open spec fn style_entry_renamed(
    names: EmitNames,
    project: ProjectInfo,
    m: Option<Seq<char>>,
    a: StyleEntry,
    b: StyleEntry,
) -> bool
    decreases a,
{
    &&& b.key@ == a.key@
    &&& expr_renamed(names, project, m, a.value, b.value)
    &&& b.span == a.span
}

pub fn rewrite_style_entry(
    names: &EmitNames,
    project: &ProjectInfo,
    m: &Option<String>,
    a: &StyleEntry,
) -> (r: StyleEntry)
    ensures
        style_entry_renamed(*names, *project, opt_view(*m), *a, r),
    decreases *a,
{
    StyleEntry {
        key: a.key.clone(),
        value: rewrite_expr(names, project, m, &a.value),
        span: a.span,
    }
}

pub open spec fn expr_kind_renamed(
    names: EmitNames,
    project: ProjectInfo,
    m: Option<Seq<char>>,
    a: ExprKind,
    b: ExprKind,
) -> bool
    decreases a,
{
    match a {
        ExprKind::Ident(name) => match ident_target(names, m, name@) {
            Some(emit) => is_ident(b, emit),
            None => is_ident(b, name@),
        },
        ExprKind::Path(segments) => match path_target(names, m, segments@) {
            Some(emit) => is_ident(b, emit),
            None => match b {
                ExprKind::Path(segments2) => same_idents(segments, segments2),
                _ => false,
            },
        },
        ExprKind::Call { callee, args, block, type_args } => match b {
            ExprKind::Call { callee: callee2, args: args2, block: block2, type_args: type_args2 } => {
                &&& expr_renamed(names, project, m, *callee, *callee2)
                &&& exprs_renamed(names, project, m, args, args2)
                &&& opt_boxed_expr_renamed(names, project, m, block, block2)
                &&& type_exprs_renamed(names, project, m, type_args, type_args2)
            },
            _ => false,
        },
        ExprKind::MethodCall { receiver, method, args, block, type_args } => match b {
            ExprKind::MethodCall {
                receiver: receiver2,
                method: method2,
                args: args2,
                block: block2,
                type_args: type_args2,
            } => {
                &&& expr_renamed(names, project, m, *receiver, *receiver2)
                &&& same_ident(method, method2)
                &&& exprs_renamed(names, project, m, args, args2)
                &&& opt_boxed_expr_renamed(names, project, m, block, block2)
                &&& type_exprs_renamed(names, project, m, type_args, type_args2)
            },
            _ => false,
        },
        ExprKind::Member { receiver, name } => match member_target(names, m, *receiver, name.name@) {
            Some(emit) => is_ident(b, emit),
            None => match b {
                ExprKind::Member { receiver: receiver2, name: name2 } => {
                    &&& expr_renamed(names, project, m, *receiver, *receiver2)
                    &&& same_ident(name, name2)
                },
                _ => false,
            },
        },
        ExprKind::SafeMember { receiver, name } => match b {
            ExprKind::SafeMember { receiver: receiver2, name: name2 } => {
                &&& expr_renamed(names, project, m, *receiver, *receiver2)
                &&& same_ident(name, name2)
            },
            _ => false,
        },
        ExprKind::SafeMethodCall { receiver, method, args, block, type_args } => match b {
            ExprKind::SafeMethodCall {
                receiver: receiver2,
                method: method2,
                args: args2,
                block: block2,
                type_args: type_args2,
            } => {
                &&& expr_renamed(names, project, m, *receiver, *receiver2)
                &&& same_ident(method, method2)
                &&& exprs_renamed(names, project, m, args, args2)
                &&& opt_boxed_expr_renamed(names, project, m, block, block2)
                &&& type_exprs_renamed(names, project, m, type_args, type_args2)
            },
            _ => false,
        },
        ExprKind::Index { receiver, index } => match b {
            ExprKind::Index { receiver: receiver2, index: index2 } => {
                &&& expr_renamed(names, project, m, *receiver, *receiver2)
                &&& expr_renamed(names, project, m, *index, *index2)
            },
            _ => false,
        },
        ExprKind::Block(x) => match b {
            ExprKind::Block(y) => block_renamed(names, project, m, x, y),
            _ => false,
        },
        ExprKind::Lambda { params, body } => match b {
            ExprKind::Lambda { params: params2, body: body2 } => {
                &&& params_renamed(names, project, m, params, params2)
                &&& block_renamed(names, project, m, body, body2)
            },
            _ => false,
        },
        ExprKind::Unary { op, expr } => match b {
            ExprKind::Unary { op: op2, expr: expr2 } => {
                &&& op2 == op
                &&& expr_renamed(names, project, m, *expr, *expr2)
            },
            _ => false,
        },
        ExprKind::Binary { op, lhs, rhs } => match b {
            ExprKind::Binary { op: op2, lhs: lhs2, rhs: rhs2 } => {
                &&& op2 == op
                &&& expr_renamed(names, project, m, *lhs, *lhs2)
                &&& expr_renamed(names, project, m, *rhs, *rhs2)
            },
            _ => false,
        },
        ExprKind::Try(x) => match b {
            ExprKind::Try(y) => expr_renamed(names, project, m, *x, *y),
            _ => false,
        },
        ExprKind::Await(x) => match b {
            ExprKind::Await(y) => expr_renamed(names, project, m, *x, *y),
            _ => false,
        },
        ExprKind::If { cond, then_b, else_b, let_binding } => match b {
            ExprKind::If { cond: cond2, then_b: then_b2, else_b: else_b2, let_binding: let_binding2 } => {
                &&& expr_renamed(names, project, m, *cond, *cond2)
                &&& block_renamed(names, project, m, then_b, then_b2)
                &&& opt_block_renamed(names, project, m, else_b, else_b2)
                &&& opt_let_binding_renamed(names, project, m, let_binding, let_binding2)
            },
            _ => false,
        },
        ExprKind::Case { scrutinee, arms } => match b {
            ExprKind::Case { scrutinee: scrutinee2, arms: arms2 } => {
                &&& expr_renamed(names, project, m, *scrutinee, *scrutinee2)
                &&& case_arms_renamed(names, project, m, arms, arms2)
            },
            _ => false,
        },
        ExprKind::Kwarg { key, value } => match b {
            ExprKind::Kwarg { key: key2, value: value2 } => {
                &&& same_ident(key, key2)
                &&& expr_renamed(names, project, m, *value, *value2)
            },
            _ => false,
        },
        ExprKind::Element(x) => match b {
            ExprKind::Element(y) => element_renamed(names, project, m, x, y),
            _ => false,
        },
        ExprKind::Array(x) => match b {
            ExprKind::Array(y) => exprs_renamed(names, project, m, x, y),
            _ => false,
        },
        ExprKind::MapLit(x) => match b {
            ExprKind::MapLit(y) => map_entries_renamed(names, project, m, x, y),
            _ => false,
        },
        ExprKind::Range { start, end, inclusive } => match b {
            ExprKind::Range { start: start2, end: end2, inclusive: inclusive2 } => {
                &&& expr_renamed(names, project, m, *start, *start2)
                &&& expr_renamed(names, project, m, *end, *end2)
                &&& inclusive2 == inclusive
            },
            _ => false,
        },
        ExprKind::Str(x) => match b {
            ExprKind::Str(y) => str_parts_renamed(names, project, m, x, y),
            _ => false,
        },
        ExprKind::Int(_) => b == a,
        ExprKind::Float(x) => match b {
            ExprKind::Float(y) => y@ == x@,
            _ => false,
        },
        ExprKind::Bool(_) => b == a,
        ExprKind::Nil => b is Nil,
        ExprKind::Sym(x) => match b {
            ExprKind::Sym(y) => y@ == x@,
            _ => false,
        },
        ExprKind::AtIdent(x) => match b {
            ExprKind::AtIdent(y) => y@ == x@,
            _ => false,
        },
        ExprKind::SelfRef => b is SelfRef,
    }
}

pub fn rewrite_expr_kind(
    names: &EmitNames,
    project: &ProjectInfo,
    m: &Option<String>,
    a: &ExprKind,
) -> (r: ExprKind)
    ensures
        expr_kind_renamed(*names, *project, opt_view(*m), *a, r),
    decreases *a,
{
    match a {
        ExprKind::Ident(name) => match find_ident_target(names, m, name.as_str()) {
            Some(emit) => ExprKind::Ident(emit),
            None => ExprKind::Ident(name.clone()),
        },
        ExprKind::Path(segments) => match find_path_target(names, m, segments) {
            Some(emit) => ExprKind::Ident(emit),
            None => ExprKind::Path(copy_idents(segments)),
        },
        ExprKind::Call { callee, args, block, type_args } => ExprKind::Call {
            callee: Box::new(rewrite_expr(names, project, m, callee)),
            args: rewrite_exprs(names, project, m, args),
            block: rewrite_opt_boxed_expr(names, project, m, block),
            type_args: rewrite_type_exprs(names, project, m, type_args),
        },
        ExprKind::MethodCall { receiver, method, args, block, type_args } => ExprKind::MethodCall {
            receiver: Box::new(rewrite_expr(names, project, m, receiver)),
            method: copy_ident(method),
            args: rewrite_exprs(names, project, m, args),
            block: rewrite_opt_boxed_expr(names, project, m, block),
            type_args: rewrite_type_exprs(names, project, m, type_args),
        },
        ExprKind::Member { receiver, name } => match find_member_target(
            names,
            m,
            receiver,
            name.name.as_str(),
        ) {
            Some(emit) => ExprKind::Ident(emit),
            None => ExprKind::Member {
                receiver: Box::new(rewrite_expr(names, project, m, receiver)),
                name: copy_ident(name),
            },
        },
        ExprKind::SafeMember { receiver, name } => ExprKind::SafeMember {
            receiver: Box::new(rewrite_expr(names, project, m, receiver)),
            name: copy_ident(name),
        },
        ExprKind::SafeMethodCall { receiver, method, args, block, type_args } => ExprKind::SafeMethodCall {
            receiver: Box::new(rewrite_expr(names, project, m, receiver)),
            method: copy_ident(method),
            args: rewrite_exprs(names, project, m, args),
            block: rewrite_opt_boxed_expr(names, project, m, block),
            type_args: rewrite_type_exprs(names, project, m, type_args),
        },
        ExprKind::Index { receiver, index } => ExprKind::Index {
            receiver: Box::new(rewrite_expr(names, project, m, receiver)),
            index: Box::new(rewrite_expr(names, project, m, index)),
        },
        ExprKind::Block(x) => ExprKind::Block(rewrite_block(names, project, m, x)),
        ExprKind::Lambda { params, body } => ExprKind::Lambda {
            params: rewrite_params(names, project, m, params),
            body: rewrite_block(names, project, m, body),
        },
        ExprKind::Unary { op, expr } => ExprKind::Unary {
            op: *op,
            expr: Box::new(rewrite_expr(names, project, m, expr)),
        },
        ExprKind::Binary { op, lhs, rhs } => ExprKind::Binary {
            op: *op,
            lhs: Box::new(rewrite_expr(names, project, m, lhs)),
            rhs: Box::new(rewrite_expr(names, project, m, rhs)),
        },
        ExprKind::Try(x) => ExprKind::Try(Box::new(rewrite_expr(names, project, m, x))),
        ExprKind::Await(x) => ExprKind::Await(Box::new(rewrite_expr(names, project, m, x))),
        ExprKind::If { cond, then_b, else_b, let_binding } => ExprKind::If {
            cond: Box::new(rewrite_expr(names, project, m, cond)),
            then_b: rewrite_block(names, project, m, then_b),
            else_b: rewrite_opt_block(names, project, m, else_b),
            let_binding: rewrite_opt_let_binding(names, project, m, let_binding),
        },
        ExprKind::Case { scrutinee, arms } => ExprKind::Case {
            scrutinee: Box::new(rewrite_expr(names, project, m, scrutinee)),
            arms: rewrite_case_arms(names, project, m, arms),
        },
        ExprKind::Kwarg { key, value } => ExprKind::Kwarg {
            key: copy_ident(key),
            value: Box::new(rewrite_expr(names, project, m, value)),
        },
        ExprKind::Element(x) => ExprKind::Element(rewrite_element(names, project, m, x)),
        ExprKind::Array(x) => ExprKind::Array(rewrite_exprs(names, project, m, x)),
        ExprKind::MapLit(x) => ExprKind::MapLit(rewrite_map_entries(names, project, m, x)),
        ExprKind::Range { start, end, inclusive } => ExprKind::Range {
            start: Box::new(rewrite_expr(names, project, m, start)),
            end: Box::new(rewrite_expr(names, project, m, end)),
            inclusive: *inclusive,
        },
        ExprKind::Str(x) => ExprKind::Str(rewrite_str_parts(names, project, m, x)),
        ExprKind::Int(x) => ExprKind::Int(*x),
        ExprKind::Float(x) => ExprKind::Float(x.clone()),
        ExprKind::Bool(x) => ExprKind::Bool(*x),
        ExprKind::Nil => ExprKind::Nil,
        ExprKind::Sym(x) => ExprKind::Sym(x.clone()),
        ExprKind::AtIdent(x) => ExprKind::AtIdent(x.clone()),
        ExprKind::SelfRef => ExprKind::SelfRef,
    }
}

pub open spec fn type_exprs_renamed(
    names: EmitNames,
    project: ProjectInfo,
    m: Option<Seq<char>>,
    a: Vec<TypeExpr>,
    b: Vec<TypeExpr>,
) -> bool
    decreases a,
{
    &&& a@.len() == b@.len()
    &&& forall|i: int| 0 <= i < a@.len() ==> type_expr_renamed(names, project, m, #[trigger] a[i], b[i])
}

pub fn rewrite_type_exprs(
    names: &EmitNames,
    project: &ProjectInfo,
    m: &Option<String>,
    a: &Vec<TypeExpr>,
) -> (r: Vec<TypeExpr>)
    ensures
        type_exprs_renamed(*names, *project, opt_view(*m), *a, r),
    decreases *a,
{
    let mut out: Vec<TypeExpr> = Vec::new();
    let mut i: usize = 0;
    while i < a.len()
        invariant
            i <= a@.len(),
            out@.len() == i,
            forall|j: int| 0 <= j < i ==> type_expr_renamed(*names, *project, opt_view(*m), #[trigger] a[j], out[j]),
        decreases a@.len() - i,
    {
        assert(decreases_to!(*a => a[i as int]));
        let x = rewrite_type_expr(names, project, m, &a[i]);
        out.push(x);
        i += 1;
    }
    out
}

pub open spec fn exprs_renamed(
    names: EmitNames,
    project: ProjectInfo,
    m: Option<Seq<char>>,
    a: Vec<Expr>,
    b: Vec<Expr>,
) -> bool
    decreases a,
{
    &&& a@.len() == b@.len()
    &&& forall|i: int| 0 <= i < a@.len() ==> expr_renamed(names, project, m, #[trigger] a[i], b[i])
}

pub fn rewrite_exprs(
    names: &EmitNames,
    project: &ProjectInfo,
    m: &Option<String>,
    a: &Vec<Expr>,
) -> (r: Vec<Expr>)
    ensures
        exprs_renamed(*names, *project, opt_view(*m), *a, r),
    decreases *a,
{
    let mut out: Vec<Expr> = Vec::new();
    let mut i: usize = 0;
    while i < a.len()
        invariant
            i <= a@.len(),
            out@.len() == i,
            forall|j: int| 0 <= j < i ==> expr_renamed(*names, *project, opt_view(*m), #[trigger] a[j], out[j]),
        decreases a@.len() - i,
    {
        assert(decreases_to!(*a => a[i as int]));
        let x = rewrite_expr(names, project, m, &a[i]);
        out.push(x);
        i += 1;
    }
    out
}

pub open spec fn opt_let_binding_renamed(
    names: EmitNames,
    project: ProjectInfo,
    m: Option<Seq<char>>,
    a: Option<LetBinding>,
    b: Option<LetBinding>,
) -> bool
    decreases a,
{
    match a {
        Some(x) => b is Some && let_binding_renamed(names, project, m, x, b->0),
        None => b is None,
    }
}

pub fn rewrite_opt_let_binding(
    names: &EmitNames,
    project: &ProjectInfo,
    m: &Option<String>,
    a: &Option<LetBinding>,
) -> (r: Option<LetBinding>)
    ensures
        opt_let_binding_renamed(*names, *project, opt_view(*m), *a, r),
    decreases *a,
{
    match a {
        Some(x) => Some(rewrite_let_binding(names, project, m, x)),
        None => None,
    }
}

pub open spec fn case_arms_renamed(
    names: EmitNames,
    project: ProjectInfo,
    m: Option<Seq<char>>,
    a: Vec<CaseArm>,
    b: Vec<CaseArm>,
) -> bool
    decreases a,
{
    &&& a@.len() == b@.len()
    &&& forall|i: int| 0 <= i < a@.len() ==> case_arm_renamed(names, project, m, #[trigger] a[i], b[i])
}

pub fn rewrite_case_arms(
    names: &EmitNames,
    project: &ProjectInfo,
    m: &Option<String>,
    a: &Vec<CaseArm>,
) -> (r: Vec<CaseArm>)
    ensures
        case_arms_renamed(*names, *project, opt_view(*m), *a, r),
    decreases *a,
{
    let mut out: Vec<CaseArm> = Vec::new();
    let mut i: usize = 0;
    while i < a.len()
        invariant
            i <= a@.len(),
            out@.len() == i,
            forall|j: int| 0 <= j < i ==> case_arm_renamed(*names, *project, opt_view(*m), #[trigger] a[j], out[j]),
        decreases a@.len() - i,
    {
        assert(decreases_to!(*a => a[i as int]));
        let x = rewrite_case_arm(names, project, m, &a[i]);
        out.push(x);
        i += 1;
    }
    out
}

pub open spec fn map_entries_renamed(
    names: EmitNames,
    project: ProjectInfo,
    m: Option<Seq<char>>,
    a: Vec<MapEntry>,
    b: Vec<MapEntry>,
) -> bool
    decreases a,
{
    &&& a@.len() == b@.len()
    &&& forall|i: int| 0 <= i < a@.len() ==> map_entry_renamed(names, project, m, #[trigger] a[i], b[i])
}

pub fn rewrite_map_entries(
    names: &EmitNames,
    project: &ProjectInfo,
    m: &Option<String>,
    a: &Vec<MapEntry>,
) -> (r: Vec<MapEntry>)
    ensures
        map_entries_renamed(*names, *project, opt_view(*m), *a, r),
    decreases *a,
{
    let mut out: Vec<MapEntry> = Vec::new();
    let mut i: usize = 0;
    while i < a.len()
        invariant
            i <= a@.len(),
            out@.len() == i,
            forall|j: int| 0 <= j < i ==> map_entry_renamed(*names, *project, opt_view(*m), #[trigger] a[j], out[j]),
        decreases a@.len() - i,
    {
        assert(decreases_to!(*a => a[i as int]));
        let x = rewrite_map_entry(names, project, m, &a[i]);
        out.push(x);
        i += 1;
    }
    out
}

pub open spec fn str_parts_renamed(
    names: EmitNames,
    project: ProjectInfo,
    m: Option<Seq<char>>,
    a: Vec<StrPart>,
    b: Vec<StrPart>,
) -> bool
    decreases a,
{
    &&& a@.len() == b@.len()
    &&& forall|i: int| 0 <= i < a@.len() ==> str_part_renamed(names, project, m, #[trigger] a[i], b[i])
}

pub fn rewrite_str_parts(
    names: &EmitNames,
    project: &ProjectInfo,
    m: &Option<String>,
    a: &Vec<StrPart>,
) -> (r: Vec<StrPart>)
    ensures
        str_parts_renamed(*names, *project, opt_view(*m), *a, r),
    decreases *a,
{
    let mut out: Vec<StrPart> = Vec::new();
    let mut i: usize = 0;
    while i < a.len()
        invariant
            i <= a@.len(),
            out@.len() == i,
            forall|j: int| 0 <= j < i ==> str_part_renamed(*names, *project, opt_view(*m), #[trigger] a[j], out[j]),
        decreases a@.len() - i,
    {
        assert(decreases_to!(*a => a[i as int]));
        let x = rewrite_str_part(names, project, m, &a[i]);
        out.push(x);
        i += 1;
    }
    out
}

pub open spec fn let_binding_renamed(
    names: EmitNames,
    project: ProjectInfo,
    m: Option<Seq<char>>,
    a: LetBinding,
    b: LetBinding,
) -> bool
    decreases a,
{
    &&& same_pattern(a.pattern, b.pattern)
    &&& expr_renamed(names, project, m, *a.value, *b.value)
}

pub fn rewrite_let_binding(
    names: &EmitNames,
    project: &ProjectInfo,
    m: &Option<String>,
    a: &LetBinding,
) -> (r: LetBinding)
    ensures
        let_binding_renamed(*names, *project, opt_view(*m), *a, r),
    decreases *a,
{
    LetBinding {
        pattern: copy_pattern(&a.pattern),
        value: Box::new(rewrite_expr(names, project, m, &a.value)),
    }
}

pub open spec fn case_arm_renamed(
    names: EmitNames,
    project: ProjectInfo,
    m: Option<Seq<char>>,
    a: CaseArm,
    b: CaseArm,
) -> bool
    decreases a,
{
    &&& same_pattern(a.pattern, b.pattern)
    &&& block_renamed(names, project, m, a.body, b.body)
    &&& b.span == a.span
}

pub fn rewrite_case_arm(
    names: &EmitNames,
    project: &ProjectInfo,
    m: &Option<String>,
    a: &CaseArm,
) -> (r: CaseArm)
    ensures
        case_arm_renamed(*names, *project, opt_view(*m), *a, r),
    decreases *a,
{
    CaseArm {
        pattern: copy_pattern(&a.pattern),
        body: rewrite_block(names, project, m, &a.body),
        span: a.span,
    }
}

pub open spec fn map_entry_renamed(
    names: EmitNames,
    project: ProjectInfo,
    m: Option<Seq<char>>,
    a: MapEntry,
    b: MapEntry,
) -> bool
    decreases a,
{
    &&& expr_renamed(names, project, m, a.key, b.key)
    &&& expr_renamed(names, project, m, a.value, b.value)
}

pub fn rewrite_map_entry(
    names: &EmitNames,
    project: &ProjectInfo,
    m: &Option<String>,
    a: &MapEntry,
) -> (r: MapEntry)
    ensures
        map_entry_renamed(*names, *project, opt_view(*m), *a, r),
    decreases *a,
{
    MapEntry {
        key: rewrite_expr(names, project, m, &a.key),
        value: rewrite_expr(names, project, m, &a.value),
    }
}

pub open spec fn str_part_renamed(
    names: EmitNames,
    project: ProjectInfo,
    m: Option<Seq<char>>,
    a: StrPart,
    b: StrPart,
) -> bool
    decreases a,
{
    match a {
        StrPart::Text(x) => match b {
            StrPart::Text(y) => y@ == x@,
            _ => false,
        },
        StrPart::Interp(x) => match b {
            StrPart::Interp(y) => expr_renamed(names, project, m, *x, *y),
            _ => false,
        },
        StrPart::InterpFmt { expr, format_spec } => match b {
            StrPart::InterpFmt { expr: expr2, format_spec: format_spec2 } => {
                &&& expr_renamed(names, project, m, *expr, *expr2)
                &&& format_spec2@ == format_spec@
            },
            _ => false,
        },
    }
}

pub fn rewrite_str_part(
    names: &EmitNames,
    project: &ProjectInfo,
    m: &Option<String>,
    a: &StrPart,
) -> (r: StrPart)
    ensures
        str_part_renamed(*names, *project, opt_view(*m), *a, r),
    decreases *a,
{
    match a {
        StrPart::Text(x) => StrPart::Text(x.clone()),
        StrPart::Interp(x) => StrPart::Interp(Box::new(rewrite_expr(names, project, m, x))),
        StrPart::InterpFmt { expr, format_spec } => StrPart::InterpFmt {
            expr: Box::new(rewrite_expr(names, project, m, expr)),
            format_spec: format_spec.clone(),
        },
    }
}

/// A renamed class.
pub open spec fn class_decl_renamed(
    names: EmitNames,
    project: ProjectInfo,
    a: ClassDecl,
    b: ClassDecl,
) -> bool {
    let m = module_of_file(a.span.file, project);
    &&& match resolved(names, a.name.name@, None, m) {
        Some(emit) => b.name.name@ == emit,
        None => b.name.name@ == a.name.name@,
    }
    &&& b.name.span == a.name.span
    &&& same_generic_params(a.generics, b.generics)
    &&& opt_type_expr_renamed(names, project, m, a.super_class, b.super_class)
    &&& class_members_renamed(names, project, m, a.members, b.members)
    &&& b.is_pub == a.is_pub
    &&& b.is_extern_value == a.is_extern_value
    &&& b.is_arc == a.is_arc
    &&& b.is_copyable == a.is_copyable
    &&& b.span == a.span
}

pub fn rewrite_class_decl(names: &EmitNames, project: &ProjectInfo, a: &ClassDecl) -> (r: ClassDecl)
    ensures
        class_decl_renamed(*names, *project, *a, r),
{
    let m = module_of(a.span.file, project);
    ClassDecl {
        name: Ident {
            name: match names.resolve(a.name.name.as_str(), &None, &m) {
                Some(emit) => emit,
                None => a.name.name.clone(),
            },
            span: a.name.span,
        },
        generics: copy_generic_params(&a.generics),
        super_class: rewrite_opt_type_expr(names, project, &m, &a.super_class),
        members: rewrite_class_members(names, project, &m, &a.members),
        is_pub: a.is_pub,
        is_extern_value: a.is_extern_value,
        is_arc: a.is_arc,
        is_copyable: a.is_copyable,
        span: a.span,
    }
}

/// A renamed struct.
pub open spec fn struct_decl_renamed(
    names: EmitNames,
    project: ProjectInfo,
    a: StructDecl,
    b: StructDecl,
) -> bool {
    let m = module_of_file(a.span.file, project);
    &&& same_ident(a.name, b.name)
    &&& fields_renamed(names, project, m, a.fields, b.fields)
    &&& fn_decls_renamed(names, project, m, a.methods, b.methods)
    &&& b.is_pub == a.is_pub
    &&& b.is_copyable == a.is_copyable
    &&& b.span == a.span
}

pub fn rewrite_struct_decl(
    names: &EmitNames,
    project: &ProjectInfo,
    a: &StructDecl,
) -> (r: StructDecl)
    ensures
        struct_decl_renamed(*names, *project, *a, r),
{
    let m = module_of(a.span.file, project);
    StructDecl {
        name: copy_ident(&a.name),
        fields: rewrite_fields(names, project, &m, &a.fields),
        methods: rewrite_fn_decls(names, project, &m, &a.methods),
        is_pub: a.is_pub,
        is_copyable: a.is_copyable,
        span: a.span,
    }
}

/// A renamed enum.
pub open spec fn enum_decl_renamed(
    names: EmitNames,
    project: ProjectInfo,
    a: EnumDecl,
    b: EnumDecl,
) -> bool {
    let m = module_of_file(a.span.file, project);
    &&& same_ident(a.name, b.name)
    &&& enum_variants_renamed(names, project, m, a.variants, b.variants)
    &&& b.is_pub == a.is_pub
    &&& b.is_extern == a.is_extern
    &&& b.is_error == a.is_error
    &&& opt_view(b.cpp_namespace) == opt_view(a.cpp_namespace)
    &&& b.span == a.span
}

pub fn rewrite_enum_decl(names: &EmitNames, project: &ProjectInfo, a: &EnumDecl) -> (r: EnumDecl)
    ensures
        enum_decl_renamed(*names, *project, *a, r),
{
    let m = module_of(a.span.file, project);
    EnumDecl {
        name: copy_ident(&a.name),
        variants: rewrite_enum_variants(names, project, &m, &a.variants),
        is_pub: a.is_pub,
        is_extern: a.is_extern,
        is_error: a.is_error,
        cpp_namespace: copy_opt_string(&a.cpp_namespace),
        span: a.span,
    }
}

/// A renamed view.
pub open spec fn view_decl_renamed(
    names: EmitNames,
    project: ProjectInfo,
    a: ViewDecl,
    b: ViewDecl,
) -> bool {
    let m = module_of_file(a.span.file, project);
    &&& same_ident(a.name, b.name)
    &&& params_renamed(names, project, m, a.params, b.params)
    &&& state_fields_renamed(names, project, m, a.state_fields, b.state_fields)
    &&& element_renamed(names, project, m, a.root, b.root)
    &&& b.is_pub == a.is_pub
    &&& b.span == a.span
}

pub fn rewrite_view_decl(names: &EmitNames, project: &ProjectInfo, a: &ViewDecl) -> (r: ViewDecl)
    ensures
        view_decl_renamed(*names, *project, *a, r),
{
    let m = module_of(a.span.file, project);
    ViewDecl {
        name: copy_ident(&a.name),
        params: rewrite_params(names, project, &m, &a.params),
        state_fields: rewrite_state_fields(names, project, &m, &a.state_fields),
        root: rewrite_element(names, project, &m, &a.root),
        is_pub: a.is_pub,
        span: a.span,
    }
}

/// A renamed widget.
pub open spec fn widget_decl_renamed(
    names: EmitNames,
    project: ProjectInfo,
    a: WidgetDecl,
    b: WidgetDecl,
) -> bool {
    let m = module_of_file(a.span.file, project);
    &&& same_ident(a.name, b.name)
    &&& params_renamed(names, project, m, a.params, b.params)
    &&& state_fields_renamed(names, project, m, a.state_fields, b.state_fields)
    &&& element_renamed(names, project, m, a.root, b.root)
    &&& b.is_pub == a.is_pub
    &&& b.span == a.span
}

pub fn rewrite_widget_decl(
    names: &EmitNames,
    project: &ProjectInfo,
    a: &WidgetDecl,
) -> (r: WidgetDecl)
    ensures
        widget_decl_renamed(*names, *project, *a, r),
{
    let m = module_of(a.span.file, project);
    WidgetDecl {
        name: copy_ident(&a.name),
        params: rewrite_params(names, project, &m, &a.params),
        state_fields: rewrite_state_fields(names, project, &m, &a.state_fields),
        root: rewrite_element(names, project, &m, &a.root),
        is_pub: a.is_pub,
        span: a.span,
    }
}

/// A renamed style.
pub open spec fn style_decl_renamed(
    names: EmitNames,
    project: ProjectInfo,
    a: StyleDecl,
    b: StyleDecl,
) -> bool {
    let m = module_of_file(a.span.file, project);
    &&& same_ident(a.name, b.name)
    &&& style_body_renamed(names, project, m, a.body, b.body)
    &&& b.is_pub == a.is_pub
    &&& b.span == a.span
}

pub fn rewrite_style_decl(names: &EmitNames, project: &ProjectInfo, a: &StyleDecl) -> (r: StyleDecl)
    ensures
        style_decl_renamed(*names, *project, *a, r),
{
    let m = module_of(a.span.file, project);
    StyleDecl {
        name: copy_ident(&a.name),
        body: rewrite_style_body(names, project, &m, &a.body),
        is_pub: a.is_pub,
        span: a.span,
    }
}

/// A renamed constant: it keeps its own name.
pub open spec fn let_decl_renamed(
    names: EmitNames,
    project: ProjectInfo,
    a: LetDecl,
    b: LetDecl,
) -> bool {
    let m = module_of_file(a.span.file, project);
    &&& same_ident(a.name, b.name)
    &&& type_expr_renamed(names, project, m, a.ty, b.ty)
    &&& expr_renamed(names, project, m, a.value, b.value)
    &&& b.is_pub == a.is_pub
    &&& b.span == a.span
}

pub fn rewrite_let_decl(names: &EmitNames, project: &ProjectInfo, a: &LetDecl) -> (r: LetDecl)
    ensures
        let_decl_renamed(*names, *project, *a, r),
{
    let m = module_of(a.span.file, project);
    LetDecl {
        name: copy_ident(&a.name),
        ty: rewrite_type_expr(names, project, &m, &a.ty),
        value: rewrite_expr(names, project, &m, &a.value),
        is_pub: a.is_pub,
        span: a.span,
    }
}

/// A renamed item. Imports, traits, implementations and flags keep what they
/// hold.
pub open spec fn item_renamed(names: EmitNames, project: ProjectInfo, a: Item, b: Item) -> bool {
    match a {
        Item::Class(x) => match b {
            Item::Class(y) => class_decl_renamed(names, project, x, y),
            _ => false,
        },
        Item::Struct(x) => match b {
            Item::Struct(y) => struct_decl_renamed(names, project, x, y),
            _ => false,
        },
        Item::Fn(x) => match b {
            Item::Fn(y) => fn_decl_renamed(names, project, None, x, y),
            _ => false,
        },
        Item::View(x) => match b {
            Item::View(y) => view_decl_renamed(names, project, x, y),
            _ => false,
        },
        Item::Widget(x) => match b {
            Item::Widget(y) => widget_decl_renamed(names, project, x, y),
            _ => false,
        },
        Item::Style(x) => match b {
            Item::Style(y) => style_decl_renamed(names, project, x, y),
            _ => false,
        },
        Item::Use(x) => match b {
            Item::Use(y) => same_use_decl(x, y),
            _ => false,
        },
        Item::UseQml(x) => match b {
            Item::UseQml(y) => same_use_qml(x, y),
            _ => false,
        },
        Item::Trait(x) => match b {
            Item::Trait(y) => same_trait_decl(x, y),
            _ => false,
        },
        Item::Impl(x) => match b {
            Item::Impl(y) => same_impl_decl(x, y),
            _ => false,
        },
        Item::Let(x) => match b {
            Item::Let(y) => let_decl_renamed(names, project, x, y),
            _ => false,
        },
        Item::Enum(x) => match b {
            Item::Enum(y) => enum_decl_renamed(names, project, x, y),
            _ => false,
        },
        Item::Flags(x) => match b {
            Item::Flags(y) => same_flags_decl(x, y),
            _ => false,
        },
        Item::Store(_) | Item::Suite(_) => false,
    }
}

/// Renames an item. Stores and suites are lowered before names are.
pub fn rewrite_item(names: &EmitNames, project: &ProjectInfo, a: &Item) -> (r: Item)
    requires
        !(a is Store),
        !(a is Suite),
    ensures
        item_renamed(*names, *project, *a, r),
{
    match a {
        Item::Class(x) => Item::Class(rewrite_class_decl(names, project, x)),
        Item::Struct(x) => Item::Struct(rewrite_struct_decl(names, project, x)),
        Item::Fn(x) => Item::Fn(rewrite_fn_decl(names, project, &None, x)),
        Item::View(x) => Item::View(rewrite_view_decl(names, project, x)),
        Item::Widget(x) => Item::Widget(rewrite_widget_decl(names, project, x)),
        Item::Style(x) => Item::Style(rewrite_style_decl(names, project, x)),
        Item::Use(x) => Item::Use(copy_use_decl(x)),
        Item::UseQml(x) => Item::UseQml(copy_use_qml(x)),
        Item::Trait(x) => Item::Trait(copy_trait_decl(x)),
        Item::Impl(x) => Item::Impl(copy_impl_decl(x)),
        Item::Let(x) => Item::Let(rewrite_let_decl(names, project, x)),
        Item::Enum(x) => Item::Enum(rewrite_enum_decl(names, project, x)),
        Item::Flags(x) => Item::Flags(copy_flags_decl(x)),
        Item::Store(x) => Item::Store(copy_store_decl(x)),
        Item::Suite(x) => Item::Suite(copy_suite_decl(x)),
    }
}

/// A renamed module: item by item.
pub open spec fn module_renamed(
    names: EmitNames,
    project: ProjectInfo,
    a: Module,
    b: Module,
) -> bool {
    &&& b.span == a.span
    &&& b.items@.len() == a.items@.len()
    &&& forall|i: int|
        0 <= i < a.items@.len() ==> item_renamed(names, project, #[trigger] a.items@[i], b.items@[i])
}

/// No item is a store or a suite.
pub open spec fn lowered(items: Seq<Item>) -> bool {
    forall|i: int| 0 <= i < items.len() ==> !(#[trigger] items[i] is Store) && !(items[i] is Suite)
}

/// The names under which the classes of `module` are emitted.
pub fn build_emit_names(module: &Module, project: &ProjectInfo) -> (r: EmitNames)
    ensures
        names_of(r, module.items@, *project),
{
    EmitNames::build(module, project)
}

/// Renames every reference in `module` by the table. Qualified element heads
/// lose their qualifier also where nothing collides.
pub fn apply_rewrite(module: &Module, names: &EmitNames, project: &ProjectInfo) -> (r: Module)
    requires
        lowered(module.items@),
    ensures
        module_renamed(*names, *project, *module, r),
        refs_follow(*names, refs_module(*project, *module), refs_module(*project, r)),
{
    let mut items: Vec<Item> = Vec::new();
    let mut i: usize = 0;
    while i < module.items.len()
        invariant
            i <= module.items@.len(),
            lowered(module.items@),
            items@.len() == i,
            forall|j: int|
                0 <= j < i ==> item_renamed(
                    *names,
                    *project,
                    #[trigger] module.items@[j],
                    items@[j],
                ),
        decreases module.items@.len() - i,
    {
        items.push(rewrite_item(names, project, &module.items[i]));
        i += 1;
    }
    let out = Module { items, span: module.span };
    proof {
        law_every_reference_is_renamed(*names, *project, *module, out);
    }
    out
}

/// Builds the table of one module and renames the module by it.
pub fn mangle_module(module: &Module, project: &ProjectInfo) -> (r: (Module, EmitNames))
    requires
        lowered(module.items@),
    ensures
        names_of(r.1, module.items@, *project),
        module_renamed(r.1, *project, *module, r.0),
        refs_follow(r.1, refs_module(*project, *module), refs_module(*project, r.0)),
{
    let names = build_emit_names(module, project);
    let rewritten = apply_rewrite(module, &names, project);
    (rewritten, names)
}

} // verus!
